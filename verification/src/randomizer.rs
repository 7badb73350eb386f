//! The source of randomness behind piece selection.
//!
//! The generator is `rand`'s `StdRng`, seeded explicitly so that a game can be
//! replayed. Nothing is assumed about the numbers it produces.

use rand::rngs::StdRng;
use rand::Rng;
use rand::SeedableRng;
use vstd::prelude::*;

verus! {

/// `rand::rngs::StdRng`, carried as a value whose inside is not looked at.
#[verifier::external_type_specification]
#[verifier::external_body]
pub struct ExStdRng(rand::rngs::StdRng);

/// Calls `rand::SeedableRng::seed_from_u64` for `StdRng`. The call accepts
/// every seed; nothing is claimed about the generator it returns.
#[verifier::external_body]
fn rng_from_seed(seed: u64) -> StdRng {
    StdRng::seed_from_u64(seed)
}

/// Calls `rand::Rng::gen::<u32>` on the generator. Nothing is claimed about
/// the number drawn or about the generator's state afterwards.
#[verifier::external_body]
fn draw_u32(rng: &mut StdRng) -> u32 {
    rng.gen::<u32>()
}

/// A seeded stream of random numbers, owned by whoever needs to pick pieces.
#[derive(Debug)]
pub struct Randomizer {
    rng: StdRng,
}

impl Randomizer {
    /// A stream whose generator is seeded with `seed`.
    pub fn new(seed: u64) -> Randomizer {
        Randomizer { rng: rng_from_seed(seed) }
    }

    /// The next number of the stream. Any `u32` may come back.
    pub(crate) fn next_u32(&mut self) -> u32 {
        draw_u32(&mut self.rng)
    }
}

} // verus!
