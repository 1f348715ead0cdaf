//! The simulation's random source: a seedable generator wrapped so that
//! each draw carries a range contract.

use vstd::prelude::*;

verus! {

#[verifier::external_type_specification]
#[verifier::external_body]
pub struct ExStdRng(rand::rngs::StdRng);

/// A seedable random source for the simulation.
pub struct AntRng {
    rng: rand::rngs::StdRng,
}

impl AntRng {
    /// Relies on rand's `SeedableRng::seed_from_u64` for `StdRng`: builds
    /// a generator from a 64-bit seed.
    #[verifier::external_body]
    pub fn new_seeded(seed: u64) -> (r: AntRng) {
        AntRng { rng: <rand::rngs::StdRng as rand::SeedableRng>::seed_from_u64(seed) }
    }

    /// Relies on rand's `SeedableRng::from_entropy` for `StdRng`: builds a
    /// generator from operating-system randomness.
    #[verifier::external_body]
    pub fn from_entropy() -> (r: AntRng) {
        AntRng { rng: <rand::rngs::StdRng as rand::SeedableRng>::from_entropy() }
    }

    /// Relies on rand's `Rng::gen_range` over an inclusive (nonempty, so
    /// panic-free) range: the draw lies within it; nothing else can be
    /// promised of a random value.
    #[verifier::external_body]
    pub fn gen_range_fp(&mut self, lo: i64, hi: i64) -> (r: i64)
        requires
            lo <= hi,
        ensures
            lo <= r <= hi,
    {
        rand::Rng::gen_range(&mut self.rng, lo..=hi)
    }

    /// Relies on rand's `Rng::gen::<bool>`: a coin flip.
    #[verifier::external_body]
    pub fn gen_bool(&mut self) -> (r: bool) {
        rand::Rng::gen(&mut self.rng)
    }
}

} // verus!
