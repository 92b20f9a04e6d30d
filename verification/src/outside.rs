//! The crate's trusted boundary: every call into an outside crate or into an
//! unspecified part of std goes through exactly one of these wrappers.

use vstd::prelude::*;

verus! {

/// Relies on `rand::Rng::gen_range` over an `i64` range: a draw from
/// `lo..hi`. It panics only on an empty range, which the precondition rules
/// out; nothing more is promised of which value comes back.
#[verifier::external_body]
pub fn rand_in_range(lo: i64, hi: i64) -> (r: i64)
    requires
        lo < hi,
    ensures
        lo <= r < hi,
{
    rand::Rng::gen_range(&mut rand::thread_rng(), lo..hi)
}

/// Relies on `rand::Rng::gen` for `u32`: an arbitrary draw used as a token
/// salt. Nothing is promised of the value.
#[verifier::external_body]
pub fn rand_u32() -> u32 {
    rand::Rng::gen(&mut rand::thread_rng())
}

/// Relies on `sha256::digest`: the hex digest of the formatted lock data.
/// The result serves only as an opaque token tag, so nothing is promised of
/// its content.
#[verifier::external_body]
pub fn digest_with_salt(side: &str, qty: i64, price: i64, trader: &str, salt: u32) -> String {
    sha256::digest(format!("{}{}{}{}{}", side, qty, price, trader, salt))
}

/// Relies on `str`'s `PartialEq`: two string slices compare equal exactly
/// when their text does.
#[verifier::external_body]
pub fn str_eq(a: &str, b: &str) -> (r: bool)
    ensures
        r == (a@ == b@),
{
    a == b
}

} // verus!
