//! The random draws that generation and combat consume.
//!
//! Everything random in this crate is a function of a sequence of `u32`
//! draws. A `RandomSource` holds such a sequence and hands its values out in
//! order, so that a run can be repeated by handing in the same values again.
//! Fresh values come from the random generator of the current thread
//! through `RandomSource::refill`.

use vstd::prelude::*;

verus! {

/// The first of `draws`, or zero where there is none left.
pub open spec fn first_draw(draws: Seq<u32>) -> u32 {
    if draws.len() > 0 {
        draws[0]
    } else {
        0
    }
}

/// What is left of `draws` when `count` of them have been taken.
pub open spec fn rest_draws(draws: Seq<u32>, count: nat) -> Seq<u32> {
    if count <= draws.len() {
        draws.skip(count as int)
    } else {
        Seq::empty()
    }
}

/// Taking `a` draws and then `b` more is taking `a + b`.
pub proof fn lemma_rest_draws_twice(draws: Seq<u32>, a: nat, b: nat)
    ensures
        rest_draws(rest_draws(draws, a), b) == rest_draws(draws, a + b),
{
    if a + b <= draws.len() {
        assert(draws.skip(a as int).skip(b as int) =~= draws.skip((a + b) as int));
    } else if a <= draws.len() {
        assert(rest_draws(draws.skip(a as int), b) =~= Seq::<u32>::empty());
    } else {
        assert(rest_draws(Seq::<u32>::empty(), b) =~= Seq::<u32>::empty());
    }
}

/// Whether `after` is what is left of `before` when no more than `count`
/// draws have been taken.
pub open spec fn takes_at_most(before: Seq<u32>, after: Seq<u32>, count: nat) -> bool {
    exists|taken: nat| taken <= count && after == #[trigger] rest_draws(before, taken)
}

/// Taking no more than `first` draws and then no more than `second` is
/// taking no more than `first + second`.
pub proof fn lemma_takes_at_most_twice(
    before: Seq<u32>,
    between: Seq<u32>,
    after: Seq<u32>,
    first: nat,
    second: nat,
)
    requires
        takes_at_most(before, between, first),
        takes_at_most(between, after, second),
    ensures
        takes_at_most(before, after, first + second),
{
    let a = choose|taken: nat| taken <= first && between == #[trigger] rest_draws(before, taken);
    let b = choose|taken: nat| taken <= second && after == #[trigger] rest_draws(between, taken);
    lemma_rest_draws_twice(before, a, b);
    assert(after == rest_draws(before, a + b));
}

/// A sequence of random draws, handed out front to back. Its view is the
/// sequence of the draws that have not been taken yet.
pub struct RandomSource {
    values: Vec<u32>,
    cursor: usize,
}

impl View for RandomSource {
    type V = Seq<u32>;

    closed spec fn view(&self) -> Seq<u32> {
        if self.cursor <= self.values.len() {
            self.values@.subrange(self.cursor as int, self.values.len() as int)
        } else {
            Seq::empty()
        }
    }
}

/// One uniformly distributed `u32` from `rand::random`, which takes it from
/// the generator of the current thread. Nothing is claimed of the value.
#[verifier::external_body]
fn entropy_u32() -> u32 {
    rand::random::<u32>()
}

impl RandomSource {
    /// A source with no draws in it.
    pub fn new() -> (source: RandomSource)
        ensures
            source@ == Seq::<u32>::empty(),
    {
        RandomSource { values: Vec::new(), cursor: 0 }
    }

    /// A source that hands out `values` in order.
    pub fn from_values(values: Vec<u32>) -> (source: RandomSource)
        ensures
            source@ == values@,
    {
        assert(values@.subrange(0, values@.len() as int) =~= values@);
        RandomSource { values, cursor: 0 }
    }

    /// The number of draws that are left.
    pub fn remaining(&self) -> (count: usize)
        ensures
            count == self@.len(),
    {
        if self.cursor <= self.values.len() {
            self.values.len() - self.cursor
        } else {
            0
        }
    }

    /// The draw that comes next, which stays in the source.
    pub fn peek(&self) -> (draw: u32)
        ensures
            draw == first_draw(self@),
    {
        if self.cursor < self.values.len() {
            self.values[self.cursor]
        } else {
            0
        }
    }

    /// A second source with the same draws left.
    pub fn fork(&self) -> (copy: RandomSource)
        ensures
            copy@ == self@,
    {
        let mut values: Vec<u32> = Vec::new();
        if self.cursor > self.values.len() {
            return RandomSource { values, cursor: 0 };
        }
        let mut i: usize = self.cursor;
        while i < self.values.len()
            invariant
                self.cursor <= i <= self.values.len(),
                values@ == self.values@.subrange(self.cursor as int, i as int),
            decreases self.values.len() - i,
        {
            values.push(self.values[i]);
            i = i + 1;
            assert(values@ =~= self.values@.subrange(self.cursor as int, i as int));
        }
        assert(values@.subrange(0, values@.len() as int) =~= values@);
        RandomSource { values, cursor: 0 }
    }

    /// Takes the next draw. A source that has run out hands out zero and
    /// stays empty.
    pub fn next_u32(&mut self) -> (draw: u32)
        ensures
            draw == first_draw(old(self)@),
            final(self)@ == rest_draws(old(self)@, 1),
    {
        if self.cursor < self.values.len() {
            let draw = self.values[self.cursor];
            self.cursor = self.cursor + 1;
            assert(self@ =~= rest_draws(old(self)@, 1));
            draw
        } else {
            assert(self@ =~= rest_draws(old(self)@, 1));
            0
        }
    }

    /// Appends fresh random values behind the draws that are left, until
    /// at least `needed` draws are there. The draws that were there stay in
    /// front, so a source that already holds `needed` values is unchanged.
    pub fn refill(&mut self, needed: usize)
        ensures
            final(self)@.len() == if old(self)@.len() >= needed { old(self)@.len() } else { needed as nat },
            final(self)@.subrange(0, old(self)@.len() as int) == old(self)@,
    {
        if self.cursor > self.values.len() {
            self.cursor = self.values.len();
        }
        assert(self@ =~= old(self)@);
        while self.values.len() - self.cursor < needed
            invariant
                self.cursor <= self.values.len(),
                self@.len() >= old(self)@.len(),
                self@.len() <= needed || self@.len() == old(self)@.len(),
                self@.subrange(0, old(self)@.len() as int) == old(self)@,
            decreases needed - (self.values.len() - self.cursor),
        {
            let ghost before = self@;
            let fresh = entropy_u32();
            self.values.push(fresh);
            assert(self@ =~= before.push(fresh));
            assert(self@.subrange(0, old(self)@.len() as int) =~= before.subrange(0, old(self)@.len() as int));
        }
    }
}

} // verus!
