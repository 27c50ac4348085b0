//! Random draws, from the thread-local generator of the `rand` crate.

use vstd::prelude::*;
use rand::Rng;

verus! {

/// Calls `rand::Rng::gen_ratio` on `rand::thread_rng()`: `true` with
/// probability `numerator / denominator`. The crate documents that a zero
/// numerator always gives `false` and a numerator equal to the denominator
/// always gives `true`, and that the call panics when the denominator is
/// zero or smaller than the numerator. Which value comes back otherwise is
/// left open.
#[verifier::external_body]
pub(crate) fn gen_ratio(numerator: u32, denominator: u32) -> (b: bool)
    requires
        0 < denominator,
        numerator <= denominator,
    ensures
        numerator == 0 ==> !b,
        numerator == denominator ==> b,
{
    rand::thread_rng().gen_ratio(numerator, denominator)
}

/// Calls `rand::Rng::gen_range(0..len)` on `rand::thread_rng()`: an index
/// below `len`. The call panics on an empty range. Which index comes back is
/// left open.
#[verifier::external_body]
pub(crate) fn gen_index(len: usize) -> (i: usize)
    requires
        len > 0,
    ensures
        i < len,
{
    rand::thread_rng().gen_range(0..len)
}

} // verus!
