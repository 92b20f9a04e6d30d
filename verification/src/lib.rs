//! A simulated multi-asset exchange with a token-based reservation protocol,
//! and trading agents that arbitrage across several exchange venues.

pub mod errors;
pub mod goods;
pub mod laws;
pub mod market;
mod outside;
pub mod rocket;
pub mod token;
pub mod trader;
pub mod trader_balordo;
pub mod wrapper;

pub use goods::Good;
pub use goods::GoodKind;
