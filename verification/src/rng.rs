//! The seeded byte stream that scatters a flock.
//!
//! The generator comes from the `rand` crate and is trusted only for its
//! types: nothing is assumed about the bytes it yields, so everything the
//! kernel guarantees about an initialized flock holds for every possible
//! stream.

use vstd::prelude::*;

verus! {

#[verifier::external_type_specification]
#[verifier::external_body]
pub struct ExSmallRng(rand::rngs::SmallRng);

/// Relies on rand's `SmallRng::seed_from_u64` to build a small, fast
/// generator from a word-sized seed.
#[verifier::external_body]
pub(crate) fn rng_from_seed(seed: u64) -> (r: rand::rngs::SmallRng) {
    <rand::rngs::SmallRng as rand::SeedableRng>::seed_from_u64(seed)
}

/// Relies on rand's `Rng::gen` to draw one byte; any value may come back.
#[verifier::external_body]
pub(crate) fn rng_next_byte(rng: &mut rand::rngs::SmallRng) -> (b: u8) {
    rand::Rng::gen::<u8>(rng)
}

} // verus!
