[package]
name = "zse"
version = "0.1.0"
edition = "2021"
publish = false

[dependencies]
rand = "0.8"
sha256 = "1"
chrono = "0.4"
clap = { version = "4", features = ["derive"] }
