//! Randomness for the simulation, behind trusted wrappers.
//!
//! Two generators are used. World generation draws from a `rand_pcg::Pcg32`
//! seeded once from a 64-bit value: every draw it yields is a pure function of
//! that seed and of the draws already made, which is what makes map generation
//! deterministic. Explorer movement draws from the thread-local generator,
//! of which nothing is assumed beyond the range of each draw.

use vstd::prelude::*;
use rand::Rng;
use rand::RngCore;
use rand::SeedableRng;

verus! {

#[verifier::external_type_specification]
#[verifier::external_body]
pub struct ExPcg32(rand_pcg::Pcg32);

/// The `index`-th 32-bit output of a `rand_pcg::Pcg32` seeded from `seed`,
/// when only raw 32-bit draws have been made before it.
pub uninterp spec fn pcg_u32(seed: u64, index: nat) -> u32;

/// The result of a bounded draw from a `rand_pcg::Pcg32` seeded from `seed`,
/// whose history is `raw_draws` raw 32-bit draws followed by bounded draws
/// with the bounds `bounds`; the draw described is the last one of `bounds`.
pub uninterp spec fn pcg_range_draw(seed: u64, raw_draws: nat, bounds: Seq<u64>) -> u64;

/// A seeded generator together with a ghost record of its draw history:
/// the seed it was built from, how many raw 32-bit draws were made, and the
/// bounds of the bounded draws made after them. The fields are private and
/// every value is built by [`SeededRng::new`], so the record always matches
/// what was actually drawn; the contracts of [`SeededRng::next_raw`] and
/// [`SeededRng::next_bounded`] speak of the draws through that record.
pub(crate) struct SeededRng {
    rng: rand_pcg::Pcg32,
    seed: Ghost<u64>,
    raw: Ghost<nat>,
    bounds: Ghost<Seq<u64>>,
}

impl SeededRng {
    pub(crate) closed spec fn seed(self) -> u64 {
        self.seed@
    }

    pub(crate) closed spec fn raw_draws(self) -> nat {
        self.raw@
    }

    pub(crate) closed spec fn bounds(self) -> Seq<u64> {
        self.bounds@
    }

    pub(crate) fn new(seed: u64) -> (r: SeededRng)
        ensures
            r.seed() == seed,
            r.raw_draws() == 0,
            r.bounds() == Seq::<u64>::empty(),
    {
        SeededRng {
            rng: pcg_from_seed(seed),
            seed: Ghost(seed),
            raw: Ghost(0nat),
            bounds: Ghost(Seq::empty()),
        }
    }

    /// Relies on `rand_core::RngCore::next_u32` for `rand_pcg::Pcg32`: the next
    /// 32-bit output is a pure function of the seed and of the draws already
    /// made, and the call never fails.
    #[verifier::external_body]
    pub(crate) fn next_raw(&mut self) -> (r: u32)
        requires
            old(self).bounds() == Seq::<u64>::empty(),
        ensures
            final(self).seed() == old(self).seed(),
            final(self).raw_draws() == old(self).raw_draws() + 1,
            final(self).bounds() == old(self).bounds(),
            r == pcg_u32(old(self).seed(), old(self).raw_draws()),
    {
        self.rng.next_u32()
    }

    /// Relies on `rand::Rng::gen_range` over `0..bound` for `rand_pcg::Pcg32`:
    /// rand 0.8's integer sampling maps generator output to the range
    /// deterministically, so the draw is a pure function of the seed and the
    /// draw history, and it lies below `bound`. `gen_range` panics on an empty
    /// range, so the bound must be positive.
    #[verifier::external_body]
    pub(crate) fn next_bounded(&mut self, bound: u64) -> (r: u64)
        requires
            bound >= 1,
        ensures
            final(self).seed() == old(self).seed(),
            final(self).raw_draws() == old(self).raw_draws(),
            final(self).bounds() == old(self).bounds().push(bound),
            r == pcg_range_draw(old(self).seed(), old(self).raw_draws(), old(self).bounds().push(bound)),
            r < bound,
    {
        self.rng.gen_range(0..bound)
    }
}

/// Relies on `rand::SeedableRng::seed_from_u64` for `rand_pcg::Pcg32`:
/// deterministic construction of the generator from a 64-bit seed.
#[verifier::external_body]
fn pcg_from_seed(seed: u64) -> (r: rand_pcg::Pcg32)
{
    rand_pcg::Pcg32::seed_from_u64(seed)
}

/// Relies on `rand::Rng::gen_range` over `-1..=1` on `rand::thread_rng`: the
/// draw lies in that range. Nothing more is assumed of it; callers must hold
/// for every value the range allows.
#[verifier::external_body]
pub(crate) fn random_unit_offset() -> (r: i8)
    ensures
        -1 <= r <= 1,
{
    rand::thread_rng().gen_range(-1i8..=1i8)
}

} // verus!
