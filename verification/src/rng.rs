//! Trusted boundary to the `rand` crate.
//!
//! The engine owns one seeded [`rand::rngs::StdRng`]; everything it draws
//! goes through [`rng_below`], whose contract states only what uniform
//! sampling guarantees of every outcome: the value lies in the requested
//! range.

use vstd::prelude::*;

verus! {

#[verifier::external_type_specification]
#[verifier::external_body]
pub struct ExStdRng(rand::rngs::StdRng);

/// Relies on rand's `SeedableRng::seed_from_u64` for `StdRng`: builds a
/// generator deterministically from a 64-bit seed; it never panics.
/// Nothing is promised of the generator's state.
#[verifier::external_body]
pub fn seeded_rng(seed: u64) -> (r: rand::rngs::StdRng) {
    <rand::rngs::StdRng as rand::SeedableRng>::seed_from_u64(seed)
}

/// Relies on rand's `RngExt::random_range` over `0..bound`: it samples the
/// given range and panics only when the range is empty, which the
/// precondition rules out. Of the outcome only membership in the range is
/// stated: the drawn value depends on the generator's state.
#[verifier::external_body]
pub fn rng_below(rng: &mut rand::rngs::StdRng, bound: i64) -> (r: i64)
    requires
        bound > 0,
    ensures
        0 <= r < bound,
{
    rand::RngExt::random_range(rng, 0..bound)
}

/// Relies on `rand::random`: a fresh 64-bit value from the thread-local
/// generator, used once to seed the engine's own generator. Nothing is
/// promised of the value.
#[verifier::external_body]
pub fn entropy_seed() -> (r: u64) {
    rand::random::<u64>()
}

} // verus!
