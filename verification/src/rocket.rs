//! Content of the status pages a web front-end serves for the trader, and
//! the route table that mounts them. Serving them over the network is a
//! front-end concern; here the pages and their routing are plain values.

use vstd::prelude::*;

verus! {

/// Body of the root page.
pub fn index() -> (r: &'static str)
    ensures
        r@ == "Hello, world!"@,
{
    "Hello, world!"
}

/// Body of the markets overview page.
pub fn html() -> (r: &'static str)
    ensures
        r@ == "<title>ZSE Trader</title><div><h1>ZSE Trader</h1><p>Markets</p></div>"@,
{
    "<title>ZSE Trader</title><div><h1>ZSE Trader</h1><p>Markets</p></div>"
}

/// The route table the front-end mounts: each path with the page body it
/// serves.
pub fn rocket() -> (r: Vec<(String, String)>)
    ensures
        r@.len() == 2,
        r@[0].0@ == "/"@,
        r@[0].1@ == "Hello, world!"@,
        r@[1].0@ == "/html"@,
        r@[1].1@ == "<title>ZSE Trader</title><div><h1>ZSE Trader</h1><p>Markets</p></div>"@,
{
    let mut routes: Vec<(String, String)> = Vec::new();
    let root: &str = "/";
    routes.push((root.to_owned(), index().to_owned()));
    let page: &str = "/html";
    routes.push((page.to_owned(), html().to_owned()));
    routes
}

} // verus!
