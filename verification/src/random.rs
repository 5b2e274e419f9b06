//! Random numbers from the thread-local generator of `rand`.
use vstd::prelude::*;
use rand::Rng;

verus! {

/// Draws a random integer from the half-open range `lo..hi`.
///
/// Calls `rand::Rng::gen_range` on `rand::thread_rng()`. The contract claims
/// only that the result lies in the range: `rand` documents nothing more of
/// an outcome, and panics on an empty range, which `requires` leaves out.
#[verifier::external_body]
pub fn random_in(lo: u64, hi: u64) -> (r: u64)
    requires
        lo < hi,
    ensures
        lo <= r < hi,
{
    rand::thread_rng().gen_range(lo..hi)
}

} // verus!
