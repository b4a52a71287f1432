//! The random source behind food placement: rand's small PRNG, held as an
//! opaque value and drawn from one word at a time.

use rand::rngs::SmallRng;
use rand::RngCore;
use vstd::prelude::*;

verus! {

#[verifier::external_type_specification]
#[verifier::external_body]
pub struct ExSmallRng(SmallRng);

/// Relies on rand's `SmallRng::next_u32` (its `RngCore` impl): it yields a
/// pseudo-random word and advances the generator. Nothing is promised of the
/// value; callers must hold for every outcome.
#[verifier::external_body]
pub(crate) fn next_random_u32(rng: &mut SmallRng) -> u32 {
    rng.next_u32()
}

} // verus!
