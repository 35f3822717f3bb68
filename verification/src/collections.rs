//! The hasher state of the simulation's hash maps and sets, seeded from the
//! runtime's random number generator so that iteration order is reproducible.

use vstd::prelude::*;
use crate::rand::{spec_draw_record, xoshiro_next_u64_of, GlobalRng};
use crate::time::Duration;

verus! {

/// The hasher state `ahash::RandomState::with_seeds` makes from four keys.
pub uninterp spec fn ahash_state_of(k0: u64, k1: u64, k2: u64, k3: u64) -> ahash::RandomState;

/// `ahash::RandomState::with_seeds`: a hasher state made from four keys; it
/// only stores values derived from the keys, so it is named.
#[verifier::external_body]
fn ahash_with_seeds(k0: u64, k1: u64, k2: u64, k3: u64) -> (r: ahash::RandomState)
    ensures
        r == ahash_state_of(k0, k1, k2, k3),
{
    ahash::RandomState::with_seeds(k0, k1, k2, k3)
}

/// The hasher state of the simulation's hash maps and sets.
pub struct SimRandomState(pub ahash::RandomState);

/// `after` is `before` after four 64-bit draws made at time `at`, whose
/// values, in order, are the keys of `state`.
pub open spec fn four_draws_later(after: GlobalRng, before: GlobalRng, at: Option<Duration>, state: ahash::RandomState) -> bool {
    let (k0, s1) = xoshiro_next_u64_of(before.spec_stream());
    let (k1, s2) = xoshiro_next_u64_of(s1);
    let (k2, s3) = xoshiro_next_u64_of(s2);
    let (k3, s4) = xoshiro_next_u64_of(s3);
    &&& after.wf()
    &&& after.spec_seed() == before.spec_seed()
    &&& after.spec_buggify() == before.spec_buggify()
    &&& after.spec_stream() == s4
    &&& after.spec_record() == spec_draw_record(spec_draw_record(spec_draw_record(
            spec_draw_record(before.spec_record(), s1, at), s2, at), s3, at), s4, at)
    &&& state == ahash_state_of(k0, k1, k2, k3)
}

impl SimRandomState {
    /// A hasher state seeded by four draws from `rng`, made at simulated time `at`.
    pub fn from_rng(rng: &mut GlobalRng, at: Option<Duration>) -> (s: SimRandomState)
        requires
            old(rng).wf(),
        ensures
            four_draws_later(*final(rng), *old(rng), at, s.0),
    {
        let k0 = rng.next_u64(at);
        let k1 = rng.next_u64(at);
        let k2 = rng.next_u64(at);
        let k3 = rng.next_u64(at);
        SimRandomState(ahash_with_seeds(k0, k1, k2, k3))
    }
}

} // verus!
