//! The random source of the first simulator: a small seeded generator that
//! decides whether a fault is injected.

use vstd::prelude::*;
use rand::{Rng, SeedableRng};

verus! {

/// The outside type `rand::rngs::SmallRng`, opaque to Verus.
#[verifier::external_type_specification]
#[verifier::external_body]
pub struct ExSmallRng(rand::rngs::SmallRng);

/// The state `SmallRng::seed_from_u64` makes from `seed` (on this target;
/// rand picks the algorithm by pointer width when the crate is built).
pub uninterp spec fn small_rng_seeded(seed: u64) -> rand::rngs::SmallRng;

/// The value `Rng::gen_ratio(numerator, denominator)` on the small generator
/// draws from state `s`, and the state after.
pub uninterp spec fn small_rng_gen_ratio_of(s: rand::rngs::SmallRng, numerator: u32, denominator: u32) -> (bool, rand::rngs::SmallRng);

/// `SmallRng::seed_from_u64`: the small generator seeded from `seed`, a pure
/// function of the seed for the build's target. The state is opaque; it is
/// named.
#[verifier::external_body]
fn small_rng_seed_from_u64(seed: u64) -> (r: rand::rngs::SmallRng)
    ensures
        r == small_rng_seeded(seed),
{
    rand::rngs::SmallRng::seed_from_u64(seed)
}

/// `Rng::gen_ratio(numerator, denominator)` on the small generator: `true`
/// with probability `numerator / denominator`. The source
/// (`Bernoulli::from_ratio`) makes it always `false` for a zero numerator and
/// always `true` when both are equal; it panics when the ratio exceeds one or
/// the denominator is zero, excluded here. The value and the state after
/// depend on the state and the ratio alone, and are named.
#[verifier::external_body]
fn small_rng_gen_ratio(rng: &mut rand::rngs::SmallRng, numerator: u32, denominator: u32) -> (r: bool)
    requires
        0 < denominator,
        numerator <= denominator,
    ensures
        numerator == 0 ==> !r,
        numerator == denominator ==> r,
        (r, *final(rng)) == small_rng_gen_ratio_of(*old(rng), numerator, denominator),
{
    rng.gen_ratio(numerator, denominator)
}

/// A seeded random source for fault injection.
pub struct RandomHandle {
    rng: rand::rngs::SmallRng,
}

impl RandomHandle {
    /// The state of the random source, which decides every answer next.
    pub closed spec fn spec_stream(&self) -> rand::rngs::SmallRng {
        self.rng
    }

    /// A random source seeded with `seed`: two sources of one seed start in
    /// the same state.
    pub fn new_with_seed(seed: u64) -> (h: RandomHandle)
        ensures
            h.spec_stream() == small_rng_seeded(seed),
    {
        RandomHandle { rng: small_rng_seed_from_u64(seed) }
    }

    /// Whether to inject a fault: `true` with probability
    /// `numerator / denominator`, never for zero, always for one.
    pub fn should_fault(&mut self, numerator: u32, denominator: u32) -> (b: bool)
        requires
            0 < denominator,
            numerator <= denominator,
        ensures
            numerator == 0 ==> !b,
            numerator == denominator ==> b,
            (b, final(self).spec_stream()) == small_rng_gen_ratio_of(old(self).spec_stream(), numerator, denominator),
    {
        small_rng_gen_ratio(&mut self.rng, numerator, denominator)
    }
}

} // verus!
