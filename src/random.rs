//! The random source: rand's `StdRng`, owned by whoever runs a simulation.
use vstd::prelude::*;

use rand::Rng;

verus! {

#[verifier::external_type_specification]
#[verifier::external_body]
pub struct ExStdRng(rand::rngs::StdRng);

/// Relies on rand's `Rng::gen_range` on `0..bound`: a value below `bound`,
/// drawn uniformly. It panics on an empty range, so `bound` is positive.
#[verifier::external_body]
pub(crate) fn draw_below(rng: &mut rand::rngs::StdRng, bound: u64) -> (r: u64)
    requires
        bound > 0,
    ensures
        r < bound,
{
    rng.gen_range(0..bound)
}

/// Relies on rand's `Rng::gen_ratio`: `true` with chance `numerator / denominator`,
/// always `false` for a numerator of zero and always `true` for a numerator equal
/// to the denominator. It panics on a zero denominator or a numerator above it.
#[verifier::external_body]
pub(crate) fn draw_ratio(rng: &mut rand::rngs::StdRng, numerator: u32, denominator: u32) -> (r: bool)
    requires
        0 < denominator,
        numerator <= denominator,
    ensures
        numerator == 0 ==> !r,
        numerator == denominator ==> r,
{
    rng.gen_ratio(numerator, denominator)
}

} // verus!
