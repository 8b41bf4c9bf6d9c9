//! Seeding the generator and drawing whole numbers from it.

use rand::rngs::StdRng;
use rand::{Rng, SeedableRng};
use vstd::prelude::*;

verus! {

/// The generator that `rand` seeds from a number.
pub uninterp spec fn seeded(seed: u64) -> StdRng;

/// The whole number below `n` that `rand` draws from a generator, and the
/// generator that is left.
pub uninterp spec fn index_draw(rng: StdRng, n: u64) -> (u64, StdRng);

/// `rand::SeedableRng::seed_from_u64` on `StdRng`: expands the seed with a fixed
/// algorithm, so that equal seeds give equal generators. How it expands the seed
/// is left unsaid.
#[verifier::external_body]
pub(crate) fn seed_rng(seed: u64) -> (r: StdRng)
    ensures
        r == seeded(seed),
{
    StdRng::seed_from_u64(seed)
}

/// `rand::SeedableRng::from_entropy` on `StdRng`: seeds a generator from the
/// operating system. Nothing is claimed of the generator. It panics where the
/// operating system has no entropy to give, which no argument decides.
#[verifier::external_body]
pub(crate) fn entropy_rng() -> (r: StdRng) {
    StdRng::from_entropy()
}

/// `rand::Rng::gen_range(0..n)` on `StdRng`: a 64-bit number below `n`,
/// determined by the state of the generator, which it advances. That the draw is uniform is
/// left unsaid. `gen_range` panics on an empty range, which `requires` leaves
/// out.
#[verifier::external_body]
pub(crate) fn draw_index(rng: &mut StdRng, n: u64) -> (r: u64)
    requires
        n > 0,
    ensures
        (r, *final(rng)) == index_draw(*old(rng), n),
        r < n,
{
    rng.gen_range(0..n)
}

} // verus!
