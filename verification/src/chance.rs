//! Random numbers.

use rand::Rng;
use vstd::prelude::*;

verus! {

/// `rand::Rng::random_range` over the numbers below `bound`: one of them, picked by chance. Nothing
/// else is known of the number; an empty range panics.
#[verifier::external_body]
pub(crate) fn draw_below(bound: u64) -> (number: u64)
    requires
        bound > 0,
    ensures
        number < bound,
{
    rand::rng().random_range(0..bound)
}

} // verus!
