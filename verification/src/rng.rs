//! The seeded random source behind the color picker.
//!
//! Colors are derived from a `rand_pcg::Pcg64` generator seeded from the seed
//! string through `rand_seeder::Seeder`. Both crates document their output as
//! a portable, reproducible function of the seed, which is what makes the
//! whole icon a deterministic function of the seed string.

use vstd::prelude::*;
use rand::RngCore;

verus! {

#[verifier::external_type_specification]
#[verifier::external_body]
pub struct ExLcg128Xsl64(rand_pcg::Lcg128Xsl64);

/// Draw number `index` of the `u32` stream that `rand_pcg::Pcg64` yields when
/// seeded from `seed` through `rand_seeder::Seeder`. `rand_seeder` documents
/// the seeding as portable and reproducible, and `rand_pcg` documents the
/// generator as a fixed, platform-independent algorithm, so each draw is a
/// function of `(seed, index)` alone.
pub uninterp spec fn pcg_draw(seed: Seq<char>, index: int) -> u32;

/// A `Pcg64` generator seeded from a string, together with the ghost record
/// of the seed it was built from and of how many draws were taken.
pub struct SeedRng {
    rng: rand_pcg::Pcg64,
    seed: Ghost<Seq<char>>,
    drawn: Ghost<int>,
}

impl SeedRng {
    /// The seed string this generator was built from.
    pub closed spec fn seed(&self) -> Seq<char> {
        self.seed@
    }

    /// How many `u32` draws were taken so far.
    pub closed spec fn drawn(&self) -> int {
        self.drawn@
    }

    /// Relies on `rand_seeder::Seeder::from` and `Seeder::make_rng::<Pcg64>`:
    /// the generator state is a deterministic function of the seed string.
    #[verifier::external_body]
    fn make_pcg(seed: &str) -> rand_pcg::Pcg64 {
        rand_seeder::Seeder::from(seed).make_rng()
    }

    /// Build the generator for `seed`, with no draws taken yet.
    pub fn from_seed(seed: &str) -> (r: SeedRng)
        ensures
            r.seed() == seed@,
            r.drawn() == 0,
    {
        SeedRng { rng: Self::make_pcg(seed), seed: Ghost(seed@), drawn: Ghost(0int) }
    }

    /// Relies on `rand_core::RngCore::next_u32` for `rand_pcg::Pcg64`: the
    /// next value of the generator's fixed, deterministic output stream.
    #[verifier::external_body]
    pub fn next_u32(&mut self) -> (r: u32)
        ensures
            final(self).seed() == old(self).seed(),
            final(self).drawn() == old(self).drawn() + 1,
            r == pcg_draw(old(self).seed(), old(self).drawn()),
    {
        self.rng.next_u32()
    }
}

} // verus!
