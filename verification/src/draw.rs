//! The random source: a `SplitMix64` generator of `rand_xoshiro`, asked for
//! one integer at a time through `rand`.
//!
//! Nothing in this file is proved.

use rand::Rng;
use rand_xoshiro::SplitMix64;
use vstd::prelude::*;

verus! {

/// `rand_xoshiro::SplitMix64`, opaque to the verifier.
#[verifier::external_type_specification]
#[verifier::external_body]
pub struct ExSplitMix64(SplitMix64);

/// `Rng::gen_range` on the inclusive range `low..=high`: some integer of
/// that range. Which one is up to the generator, and nothing is said of the
/// state it is left in. `gen_range` panics on an empty range, hence the
/// precondition.
#[verifier::external_body]
pub(crate) fn uniform_inclusive(rng: &mut SplitMix64, low: isize, high: isize) -> (r: isize)
    requires
        low <= high,
    ensures
        low <= r <= high,
{
    rng.gen_range(low..=high)
}

} // verus!
