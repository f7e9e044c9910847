//! The single seeded random stream shared by every consumer of randomness.
//!
//! The stream is held behind a small trusted surface: the generator itself is
//! an outside type, and each draw is named by the uninterpreted function
//! [`sample`], which makes the stream a function of the seed and of the
//! history of bounds drawn so far.  Everything built on top of the stream is
//! verified against that model.

use vstd::prelude::*;

verus! {

#[verifier::external_type_specification]
#[verifier::external_body]
pub struct ExStdRng(rand::rngs::StdRng);

/// The value that the seeded generator produces for the draw that follows
/// `history` (the inclusive bounds of every earlier draw, oldest first),
/// when asked for a value between `lo` and `hi` inclusive.
pub uninterp spec fn sample(seed: u64, history: Seq<(u64, u64)>, lo: u64, hi: u64) -> u64;

/// A seeded pseudo-random stream together with the ghost history of the
/// draws made from it.  Two streams with the same seed and the same history
/// return the same next value.
pub struct RandomStream {
    inner: rand::rngs::StdRng,
    seed: Ghost<u64>,
    history: Ghost<Seq<(u64, u64)>>,
}

impl RandomStream {
    /// The seed the stream was created from.
    pub closed spec fn seed(&self) -> u64 {
        self.seed@
    }

    /// The inclusive bounds of every draw made so far, oldest first.
    pub closed spec fn history(&self) -> Seq<(u64, u64)> {
        self.history@
    }

    /// Relies on `rand::SeedableRng::seed_from_u64` for `StdRng`: the
    /// generator's state is a pure function of the seed.
    #[verifier::external_body]
    pub fn new(seed: u64) -> (r: RandomStream)
        ensures
            r.seed() == seed,
            r.history() == Seq::<(u64, u64)>::empty(),
    {
        RandomStream {
            inner: rand::SeedableRng::seed_from_u64(seed),
            seed: Ghost(seed),
            history: Ghost(Seq::empty()),
        }
    }

    /// Relies on `rand::Rng::gen_range` over an inclusive `u64` range: the
    /// result lies within the bounds and is a pure function of the
    /// generator's state and of the bounds, and the state after the call is a
    /// pure function of the same.
    #[verifier::external_body]
    pub fn draw(&mut self, lo: u64, hi: u64) -> (r: u64)
        requires
            lo <= hi,
        ensures
            r == sample(old(self).seed(), old(self).history(), lo, hi),
            lo <= r <= hi,
            final(self).seed() == old(self).seed(),
            final(self).history() == old(self).history().push((lo, hi)),
    {
        rand::Rng::gen_range(&mut self.inner, lo..=hi)
    }
}

/// Relies on `rand::thread_rng` and `rand::Rng::gen_range`: the drawn
/// default seed lies in the stated range; nothing else is assumed of it.
#[verifier::external_body]
pub fn random_seed() -> (r: u64)
    ensures
        1 <= r < 1_000_000,
{
    rand::Rng::gen_range(&mut rand::thread_rng(), 1u64..1_000_000)
}

} // verus!
