//! The one source of randomness: uniform sampling from a half-open
//! integer range through the `rand` crate.

use vstd::prelude::*;

verus! {

/// Relies on `rand::random_range` over `lo..hi`: the sample is drawn
/// from the half-open range, and the call panics only when the range is
/// empty, which the precondition rules out. Nothing more is assumed of
/// the outcome.
#[verifier::external_body]
pub(crate) fn random_in_range(lo: i64, hi: i64) -> (r: i64)
    requires
        lo < hi,
    ensures
        lo <= r < hi,
{
    rand::random_range(lo..hi)
}

} // verus!
