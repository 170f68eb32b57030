//! The injectable random stream behind the encounter scheduler: a thin
//! trusted boundary around `fastrand::Rng`. Every consumer takes the drawn
//! sample as a plain value, so the logic is verified for every outcome.

use vstd::prelude::*;
use crate::fx::FX_ONE;

verus! {

#[verifier::external_type_specification]
#[verifier::external_body]
pub struct ExRng(fastrand::Rng);

/// Relies on fastrand::Rng::new: a generator seeded from entropy.
#[verifier::external_body]
pub fn rng_new() -> (r: fastrand::Rng) {
    fastrand::Rng::new()
}

/// Relies on fastrand::Rng::with_seed: a generator with a fixed seed, for
/// reproducible runs.
#[verifier::external_body]
pub fn rng_with_seed(seed: u64) -> (r: fastrand::Rng) {
    fastrand::Rng::with_seed(seed)
}

/// Relies on fastrand::Rng::i64 over a non-empty range: the sample lies in
/// the half-open range handed to it. Nothing more is promised of a random
/// draw: one sample per call, uniform over `[0, FX_ONE)` micro-units.
#[verifier::external_body]
pub fn draw_unit(rng: &mut fastrand::Rng) -> (r: i64)
    ensures
        0 <= r < FX_ONE,
{
    rng.i64(0..FX_ONE)
}

} // verus!
