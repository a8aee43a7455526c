//! Per-node random generators, taken from the rand crate. Every node owns
//! one; nothing is assumed about the values drawn beyond their range, so all
//! decisions that consume them are verified for every possible draw.

use vstd::prelude::*;
use rand::RngExt;
use rand::SeedableRng;

verus! {

#[verifier::external_type_specification]
#[verifier::external_body]
pub struct ExStdRng(rand::rngs::StdRng);

/// Relies on rand's StdRng::from_rng and rand::rng: builds a generator
/// freshly seeded from the thread-local source.
#[verifier::external_body]
pub fn new_rng() -> (r: rand::rngs::StdRng) {
    rand::rngs::StdRng::from_rng(&mut rand::rng())
}

/// Relies on rand's RngExt::random: draws an arbitrary 64-bit value.
#[verifier::external_body]
pub fn random_u64(rng: &mut rand::rngs::StdRng) -> (r: u64) {
    rng.random()
}

/// Relies on rand's RngExt::random_range over `0..100`, which yields a value
/// of that non-empty range.
#[verifier::external_body]
pub fn random_percent(rng: &mut rand::rngs::StdRng) -> (r: u8)
    ensures
        r < 100,
{
    rng.random_range(0u8..100u8)
}

} // verus!
