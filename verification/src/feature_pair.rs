//! A pair of active features on its way to whoever takes it: it can be handed on once.
use vstd::prelude::*;

verus! {

/// The active features of both sides in one place. It is neither copied nor read, only handed to
/// a function, which uses it up.
#[derive(Debug)]
pub struct FeaturePair {
    stm: usize,
    ntm: usize,
}

impl View for FeaturePair {
    type V = (usize, usize);

    closed spec fn view(&self) -> (usize, usize) {
        (self.stm, self.ntm)
    }
}

impl FeaturePair {
    /// The pair of a feature of the side to move and one of the opponent.
    pub fn new(stm: usize, ntm: usize) -> (r: Self)
        ensures
            r@ == (stm, ntm),
    {
        FeaturePair { stm, ntm }
    }

    /// Calls `f` with the two features, once.
    pub fn hand_to<F: FnOnce(usize, usize)>(self, f: F)
        requires
            call_requires(f, self@),
        ensures
            call_ensures(f, self@, ()),
    {
        f(self.stm, self.ntm)
    }
}

} // verus!
