//! Random draws.

use rand::Rng;
use vstd::prelude::*;

verus! {

/// Draws a number from the thread's random generator.
///
/// Calls `rand::Rng::gen_range` on `rand::thread_rng()`. What is taken on
/// trust is what that method documents: the number lies in `[low, high)`.
/// Nothing is claimed of which number it is.
#[verifier::external_body]
pub(crate) fn random_range(low: u64, high: u64) -> (n: u64)
    requires
        low < high,
    ensures
        low <= n < high,
{
    rand::thread_rng().gen_range(low, high)
}

} // verus!
