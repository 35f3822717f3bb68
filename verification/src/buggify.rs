//! Buggify allows you to cooperate with the simulator to inject failures.

use vstd::prelude::*;
use crate::rand::GlobalRng;
use crate::time::Duration;

verus! {

/// Returns true with a probability of 25% if buggify is enabled.
pub fn buggify(rng: &mut GlobalRng, at: Option<Duration>) -> (b: bool)
    requires
        old(rng).wf(),
    ensures
        final(rng).wf(),
        b ==> old(rng).spec_buggify(),
        !old(rng).spec_buggify() ==> *final(rng) == *old(rng),
        old(rng).spec_buggify() ==> final(rng).drawn_from(*old(rng), at)
            && (b, final(rng).spec_stream()) == crate::rand::xoshiro_gen_ratio_of(old(rng).spec_stream(), 1, 4),
        final(rng).spec_buggify() == old(rng).spec_buggify(),
{
    rng.buggify(at)
}

/// Buggify with probability `numerator / denominator`.
pub fn buggify_with_prob(rng: &mut GlobalRng, numerator: u32, denominator: u32, at: Option<Duration>) -> (b: bool)
    requires
        old(rng).wf(),
        0 < denominator,
        numerator <= denominator,
    ensures
        final(rng).wf(),
        b ==> old(rng).spec_buggify(),
        old(rng).spec_buggify() && numerator == denominator ==> b,
        old(rng).spec_buggify() && numerator == 0 ==> !b,
        !old(rng).spec_buggify() ==> *final(rng) == *old(rng),
        old(rng).spec_buggify() ==> final(rng).drawn_from(*old(rng), at)
            && (b, final(rng).spec_stream()) == crate::rand::xoshiro_gen_ratio_of(old(rng).spec_stream(), numerator, denominator),
        final(rng).spec_buggify() == old(rng).spec_buggify(),
{
    rng.buggify_with_prob(numerator, denominator, at)
}

/// Enable buggify.
pub fn enable(rng: &mut GlobalRng)
    ensures
        final(rng).spec_buggify(),
        final(rng).spec_seed() == old(rng).spec_seed(),
        final(rng).spec_stream() == old(rng).spec_stream(),
        final(rng).spec_record() == old(rng).spec_record(),
        final(rng).wf() == old(rng).wf(),
{
    rng.enable_buggify()
}

/// Disable buggify.
pub fn disable(rng: &mut GlobalRng)
    ensures
        !final(rng).spec_buggify(),
        final(rng).spec_seed() == old(rng).spec_seed(),
        final(rng).spec_stream() == old(rng).spec_stream(),
        final(rng).spec_record() == old(rng).spec_record(),
        final(rng).wf() == old(rng).wf(),
{
    rng.disable_buggify()
}

/// Returns if buggify is enabled.
pub fn is_enabled(rng: &GlobalRng) -> (b: bool)
    ensures
        b == rng.spec_buggify(),
{
    rng.is_buggify_enabled()
}

/// Once disabled, buggify never fires: every call returns `false` and
/// leaves the generator untouched.
pub proof fn disabled_buggify_never_fires(before: GlobalRng, after: GlobalRng, fired: bool)
    requires
        !before.spec_buggify(),
        fired ==> before.spec_buggify(),
    ensures
        !fired,
{
}

} // verus!
