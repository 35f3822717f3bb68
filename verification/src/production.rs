//! Outside the simulator: buggify never fires and cannot be enabled.

use vstd::prelude::*;

verus! {

/// Returns true with a probability of 25% if buggify is enabled: outside the
/// simulator it never is.
pub fn buggify() -> (b: bool)
    ensures
        !b,
{
    false
}

/// Buggify with probability `numerator / denominator`: outside the
/// simulator, always `false`.
pub fn buggify_with_prob(numerator: u32, denominator: u32) -> (b: bool)
    ensures
        !b,
{
    false
}

/// Enable buggify: no effect outside the simulator.
pub fn enable() {
}

/// Disable buggify: no effect outside the simulator.
pub fn disable() {
}

/// Returns if buggify is enabled: never outside the simulator.
pub fn is_enabled() -> (b: bool)
    ensures
        !b,
{
    false
}

} // verus!
