//! The one call into the random-number generator.
//!
//! The secret is the only random value in the game; everything the state
//! machine does with it is verified for every value the call can return.

use rand::Rng;
use vstd::prelude::*;

verus! {

/// Relies on rand's `Rng::gen_range` over `low..=high`: it panics only on
/// an empty range, and otherwise returns a value drawn from inside it.
/// Nothing more is assumed of the draw.
#[verifier::external_body]
pub(crate) fn random_in_range(low: u32, high: u32) -> (r: u32)
    requires
        low <= high,
    ensures
        low <= r && r <= high,
{
    rand::thread_rng().gen_range(low..=high)
}

} // verus!
