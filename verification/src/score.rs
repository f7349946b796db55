//! The count of stars picked up.

use vstd::prelude::*;

verus! {

/// The score of the session: it only ever grows.
#[derive(Clone, Copy, Debug, PartialEq, Eq, Structural)]
pub struct Score {
    pub value: u32,
}

impl Default for Score {
    fn default() -> (score: Score)
        ensures
            score.value == 0,
    {
        Score { value: 0 }
    }
}

impl Score {
    /// A score of zero.
    pub fn new() -> (score: Score)
        ensures
            score.value == 0,
    {
        Score { value: 0 }
    }

    /// Counts one more star.
    pub fn increment(&mut self)
        requires
            old(self).value < u32::MAX,
        ensures
            final(self).value == old(self).value + 1,
    {
        self.value = self.value + 1;
    }
}

} // verus!
