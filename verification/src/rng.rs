use vstd::prelude::*;
use crate::MAX_ABS_COORD;
use crate::SCALE;

verus! {

/// rand's standard generator (the ChaCha block cipher with 12 rounds),
/// declared so that a value of it can be carried through verified code;
/// its contents stay opaque.
#[verifier::external_type_specification]
#[verifier::external_body]
pub struct ExStdRng(rand::rngs::StdRng);

/// The word that rand's `StdRng`, built with `seed_from_u64(seed)`, hands
/// back on its `index`-th call of `RngCore::next_u64`. For the generator as
/// built here this is a function of `seed` and `index` alone.
pub uninterp spec fn std_rng_stream(seed: u64, index: nat) -> u64;

/// Relies on rand's `SeedableRng::seed_from_u64` for `StdRng`: builds the
/// generator's state from the given word, by a fixed expansion of the seed.
#[verifier::external_body]
fn seed_std_rng(seed: u64) -> rand::rngs::StdRng {
    rand::SeedableRng::seed_from_u64(seed)
}

/// A reproducible pseudo-random source: rand's `StdRng` together with the
/// seed it was built from and a ghost count of the words drawn so far, so
/// that contracts can pin every draw to its place in the seed's stream.
pub struct SeededRng {
    inner: rand::rngs::StdRng,
    seed: u64,
    drawn: Ghost<nat>,
}

impl SeededRng {
    /// The seed this source was built from.
    pub closed spec fn spec_seed(&self) -> u64 {
        self.seed
    }

    /// How many words have been drawn since seeding.
    pub closed spec fn spec_drawn(&self) -> nat {
        self.drawn@
    }

    /// Builds the source from an explicit seed; same seed, same stream.
    pub fn from_seed(seed: u64) -> (r: SeededRng)
        ensures
            r.spec_seed() == seed,
            r.spec_drawn() == 0,
    {
        SeededRng { inner: seed_std_rng(seed), seed, drawn: Ghost(0) }
    }

    /// Relies on rand's `RngCore::next_u64` for `StdRng`: after seeding with
    /// `seed_from_u64`, the sequence of drawn words is a function of the seed
    /// alone, so the `k`-th draw is `std_rng_stream(seed, k)`. The `seed` and
    /// `drawn` fields are written only here and in `from_seed`, which keeps
    /// them in step with the wrapped generator's true state.
    #[verifier::external_body]
    pub(crate) fn next_u64(&mut self) -> (r: u64)
        ensures
            final(self).spec_seed() == old(self).spec_seed(),
            final(self).spec_drawn() == old(self).spec_drawn() + 1,
            r == std_rng_stream(old(self).spec_seed(), old(self).spec_drawn()),
    {
        rand::RngCore::next_u64(&mut self.inner)
    }

    /// One uniform fixed-point draw in `[0, SCALE)`, standing for a real
    /// number in `[0, 1)`.
    pub(crate) fn next_unit(&mut self) -> (r: i64)
        ensures
            final(self).spec_seed() == old(self).spec_seed(),
            final(self).spec_drawn() == old(self).spec_drawn() + 1,
            r == unit_draw(std_rng_stream(old(self).spec_seed(), old(self).spec_drawn())),
            0 <= r < SCALE,
    {
        let u = self.next_u64();
        (u % (SCALE as u64)) as i64
    }

    /// One uniform fixed-point draw in `[lb, ub)`.
    pub(crate) fn next_in_range(&mut self, lb: i64, ub: i64) -> (r: i64)
        requires
            lb < ub,
            -MAX_ABS_COORD <= lb,
            ub <= MAX_ABS_COORD,
        ensures
            final(self).spec_seed() == old(self).spec_seed(),
            final(self).spec_drawn() == old(self).spec_drawn() + 1,
            r == range_draw(std_rng_stream(old(self).spec_seed(), old(self).spec_drawn()), lb, ub),
            lb <= r < ub,
    {
        let u = self.next_u64();
        let range: u64 = (ub - lb) as u64;
        lb + ((u % range) as i64)
    }
}

/// Maps one raw word onto the fixed-point unit interval `[0, SCALE)`.
pub open spec fn unit_draw(u: u64) -> i64 {
    ((u as int) % (SCALE as int)) as i64
}

/// Maps one raw word onto the fixed-point interval `[lb, ub)`.
pub open spec fn range_draw(u: u64, lb: i64, ub: i64) -> i64 {
    (lb + (u as int) % (ub - lb)) as i64
}

} // verus!
