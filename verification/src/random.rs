//! The source of randomness, with the record of what it has given.

use vstd::prelude::*;

verus! {

/// The operating system's source of random numbers. Its view is the numbers drawn from it so far.
pub struct RandomSource {
    draws: Ghost<Seq<u64>>,
}

impl View for RandomSource {
    type V = Seq<u64>;

    closed spec fn view(&self) -> Seq<u64> {
        self.draws@
    }
}

impl RandomSource {
    /// A source that nothing has been drawn from yet.
    pub fn new() -> (r: RandomSource)
        ensures
            r@.len() == 0,
    {
        RandomSource { draws: Ghost(Seq::empty()) }
    }

    /// Any numbers can have been drawn from a source.
    pub proof fn law_any_draws(draws: Seq<u64>) -> (r: RandomSource)
        ensures
            r@ == draws,
    {
        RandomSource { draws: Ghost(draws) }
    }
}

} // verus!
