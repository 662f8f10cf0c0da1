//! The library's only source of randomness: thin trusted wrappers over the
//! `rand` crate. Every contract states no more than what holds of every
//! possible draw.

use vstd::prelude::*;

verus! {

/// Relies on `rand::Rng::gen_range` over `lo..hi`: a draw from the half-open
/// range. It panics only on an empty range, which the precondition excludes.
#[verifier::external_body]
pub(crate) fn rand_range(lo: i64, hi: i64) -> (r: i64)
    requires
        lo < hi,
    ensures
        lo <= r < hi,
{
    rand::Rng::gen_range(&mut rand::thread_rng(), lo..hi)
}

/// Relies on `rand::random::<bool>`: a coin flip. Nothing is promised of
/// the outcome.
#[verifier::external_body]
pub(crate) fn rand_bool() -> bool {
    rand::random::<bool>()
}

} // verus!
