//! The opaque credential returned by a successful lock call.

use vstd::prelude::*;

verus! {

/// Credential for one reservation: a registry index (`id`) plus an opaque
/// content-hash tag (`code`). Possession of the token is the sole right to
/// commit (or be refused) the corresponding trade; a token is accepted at
/// most once.
#[derive(Clone, Debug, PartialEq, Eq)]
pub struct Token {
    pub id: usize,
    pub code: String,
}

} // verus!
