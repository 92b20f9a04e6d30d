//! A thin holder for a set of exchange venues, for drivers that manage
//! several markets as one group.

use vstd::prelude::*;
use crate::market::ZSE;

verus! {

/// A group of exchange venues under one handle.
pub struct Wrapper {
    pub markets: Vec<ZSE>,
}

impl Wrapper {
    pub fn new() -> (w: Wrapper)
        ensures
            w.markets@.len() == 0,
    {
        Wrapper { markets: Vec::new() }
    }
}

} // verus!
