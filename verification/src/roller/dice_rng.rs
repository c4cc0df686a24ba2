//! Sources of random numbers for rolling dice.
use rand::rngs::ThreadRng;
use std::ops::RangeInclusive;
use vstd::prelude::*;

verus! {

/// A source of uniformly drawn integers. Implement it to roll dice from
/// anything other than the thread-local generator.
pub trait DiceRng {
    /// The draws made so far, oldest first: the two ends of each range
    /// asked for and the integer that came back. An implementation that
    /// Verus checks keeps this log itself (`RealRng` does); the empty log
    /// given here by default cannot meet `random_range`'s contract.
    open spec fn draws(&self) -> Seq<(i32, i32, i32)> {
        Seq::empty()
    }

    /// An integer of `range`, both ends included; the draw is added to
    /// those made so far.
    fn random_range(&mut self, range: RangeInclusive<i32>) -> (r: i32)
        requires
            range@.start <= range@.end,
            !range@.exhausted,
        ensures
            range@.start <= r <= range@.end,
            final(self).draws() == old(self).draws().push((range@.start, range@.end, r)),
    ;
}

#[verifier::external_type_specification]
#[verifier::external_body]
pub struct ExThreadRng(ThreadRng);

/// The thread-local generator of the `rand` crate.
pub struct RealRng {
    rng: ThreadRng,
    drawn: Ghost<Seq<(i32, i32, i32)>>,
}

/// `rand::rng()`: a handle on the lazily seeded thread-local generator.
/// Nothing is claimed of it.
#[verifier::external_body]
fn thread_rng() -> ThreadRng {
    rand::rng()
}

/// `Rng::random_range` on an inclusive range of `i32`: `rand` documents
/// that the value lies in the range, and that it panics on an empty range,
/// which `requires` leaves out. Which value of the range comes back is not
/// stated: it is drawn at random.
#[verifier::external_body]
fn thread_rng_range(rng: &mut ThreadRng, range: RangeInclusive<i32>) -> (r: i32)
    requires
        range@.start <= range@.end,
        !range@.exhausted,
    ensures
        range@.start <= r <= range@.end,
{
    rand::Rng::random_range(rng, range)
}

impl RealRng {
    /// A generator that has drawn nothing yet.
    pub fn new() -> (r: Self)
        ensures
            r.draws() == Seq::<(i32, i32, i32)>::empty(),
    {
        RealRng { rng: thread_rng(), drawn: Ghost(Seq::empty()) }
    }
}

impl DiceRng for RealRng {
    closed spec fn draws(&self) -> Seq<(i32, i32, i32)> {
        self.drawn@
    }

    fn random_range(&mut self, range: RangeInclusive<i32>) -> (r: i32) {
        let ghost (start, end) = (range@.start, range@.end);
        let r = thread_rng_range(&mut self.rng, range);
        proof {
            self.drawn@ = self.drawn@.push((start, end, r));
        }
        r
    }
}

} // verus!
