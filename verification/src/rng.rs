//! The deterministic random source: a seedable pseudo-random generator
//! shared by the snapshot operation and the reset path.
//!
//! The generator itself is `rand`'s `StdRng`.  From a given 64-bit seed it
//! yields one fixed, machine-independent sequence of booleans, so that
//! sequence is modelled as an uninterpreted function of the seed and of how
//! many draws have already been taken; the source carries both as ghost
//! state.

use vstd::prelude::*;

use rand::Rng;
use rand::SeedableRng;

verus! {

/// The constant the shared source is reseeded to at process start and on
/// every reset.
pub const RESET_SEED: u64 = 2024;

/// The boolean drawn from a source seeded with `seed` on its `index`-th
/// draw (counted from zero).  `StdRng` is a deterministic generator, so
/// this is a function of the two arguments alone; its values are not
/// prescribed here.
pub uninterp spec fn std_rng_bool(seed: u64, index: nat) -> bool;

#[verifier::external_type_specification]
#[verifier::external_body]
pub struct ExStdRng(rand::rngs::StdRng);

/// Relies on rand::rngs::StdRng::seed_from_u64 (SeedableRng): builds a
/// generator whose stream is a function of the seed alone.  The generator
/// is opaque here; what its stream yields is stated where it is drawn from.
#[verifier::external_body]
fn stdrng_from_seed(value: u64) -> (r: rand::rngs::StdRng) {
    rand::rngs::StdRng::seed_from_u64(value)
}

/// A seedable, deterministic source of random booleans.
pub struct RandomSource {
    rng: rand::rngs::StdRng,
    seed: Ghost<u64>,
    drawn: Ghost<nat>,
}

impl RandomSource {
    /// The seed the source was last seeded with.
    pub closed spec fn seed_value(&self) -> u64 {
        self.seed@
    }

    /// How many booleans have been drawn since the source was last seeded.
    pub closed spec fn draw_count(&self) -> nat {
        self.drawn@
    }

    /// A source seeded with `value`, with nothing drawn yet.
    pub fn from_seed(value: u64) -> (src: RandomSource)
        ensures
            src.seed_value() == value,
            src.draw_count() == 0,
    {
        RandomSource { rng: stdrng_from_seed(value), seed: Ghost(value), drawn: Ghost(0nat) }
    }

    /// A source in the state of a fresh process start: seeded with the
    /// reset constant, nothing drawn yet.
    pub fn new() -> (src: RandomSource)
        ensures
            src.seed_value() == RESET_SEED,
            src.draw_count() == 0,
    {
        RandomSource::from_seed(RESET_SEED)
    }

    /// Reseeds the source: replaces the generator state with one determined
    /// by `value` alone, restarting its stream.
    pub fn seed(&mut self, value: u64)
        ensures
            final(self).seed_value() == value,
            final(self).draw_count() == 0,
    {
        self.rng = stdrng_from_seed(value);
        self.seed = Ghost(value);
        self.drawn = Ghost(0nat);
    }

    /// Relies on rand::Rng::gen::<bool> (the Standard distribution on
    /// bool): draws the next boolean of the generator's deterministic
    /// stream, advancing its state.
    #[verifier::external_body]
    pub fn next_bool(&mut self) -> (r: bool)
        ensures
            final(self).seed_value() == old(self).seed_value(),
            final(self).draw_count() == old(self).draw_count() + 1,
            r == std_rng_bool(old(self).seed_value(), old(self).draw_count()),
    {
        self.rng.gen::<bool>()
    }
}

} // verus!
