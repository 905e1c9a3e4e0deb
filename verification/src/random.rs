//! The boundary to the `rand` crate.
//!
//! A draw from the generator of the current thread is a matter of chance, and
//! nothing is claimed of it. A generator made from a seed is deterministic:
//! the states that it hands out are a function of the seed and of how many
//! were drawn before, and that function has a name here, `seeded_cell`.

use rand::rngs::StdRng;
use rand::Rng;
use rand::SeedableRng;
use vstd::prelude::*;

verus! {

/// `rand::rngs::StdRng`, the generator that `rand` offers as its standard
/// one. It is carried through as an opaque value.
#[verifier::external_type_specification]
#[verifier::external_body]
pub struct ExStdRng(rand::rngs::StdRng);

/// The state that the generator made from `seed` hands out at its draw
/// number `index`, counted from zero: what `Rng::gen` at type `bool` returns
/// on the `StdRng` that `SeedableRng::seed_from_u64` makes of `seed`, after
/// `index` earlier draws of that kind.
pub uninterp spec fn seeded_cell(seed: u64, index: nat) -> bool;

/// The first `count` states that the generator made from `seed` hands out.
pub open spec fn seeded_draws(seed: u64, count: nat) -> Seq<bool> {
    Seq::new(count, |index: int| seeded_cell(seed, index as nat))
}

/// A generator made from a seed, together with the seed and the number of
/// states drawn from it so far.
pub struct SeededRng {
    rng: StdRng,
    seed: Ghost<u64>,
    drawn: Ghost<nat>,
}

impl SeededRng {
    /// The seed that the generator was made from.
    pub closed spec fn seed(&self) -> u64 {
        self.seed@
    }

    /// How many states were drawn from the generator.
    pub closed spec fn drawn(&self) -> nat {
        self.drawn@
    }
}

/// Draws a seed from the generator of the current thread: `rand::thread_rng`
/// followed by `Rng::gen`. The thread's generator is seeded by the operating
/// system, so nothing is said of the value. Both calls give up with a panic
/// where the operating system's source of randomness reports an error.
#[verifier::external_body]
pub(crate) fn entropy_seed() -> (seed: u64) {
    rand::thread_rng().gen()
}

/// Makes a generator from a seed: `SeedableRng::seed_from_u64` on `StdRng`.
/// Nothing has been drawn from the new generator.
#[verifier::external_body]
pub(crate) fn seeded(seed: u64) -> (rng: SeededRng)
    ensures
        rng.seed() == seed,
        rng.drawn() == 0,
{
    SeededRng { rng: StdRng::seed_from_u64(seed), seed: Ghost(seed), drawn: Ghost(0) }
}

/// Draws the state of one cell: `Rng::gen` at type `bool`, which takes the
/// generator's next 32-bit word and returns its sign bit. The word stream of
/// a seeded `StdRng` is fixed by the seed, so the draw is the named state
/// for the seed and the number of earlier draws, and one more is then drawn.
#[verifier::external_body]
pub(crate) fn flip(rng: &mut SeededRng) -> (alive: bool)
    ensures
        alive == seeded_cell(old(rng).seed(), old(rng).drawn()),
        final(rng).seed() == old(rng).seed(),
        final(rng).drawn() == old(rng).drawn() + 1,
{
    rng.rng.gen()
}

} // verus!
