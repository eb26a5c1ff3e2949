//! A generation counter with a ceiling.

use vstd::prelude::*;

verus! {

/// Counts completed generations up to a fixed maximum.
#[derive(Clone, Copy, Debug)]
pub struct IterLimit {
    max: u64,
    cur: u64,
}

impl IterLimit {
    /// The ceiling this counter was made with.
    pub closed spec fn max(&self) -> u64 {
        self.max
    }

    /// The number of generations counted so far.
    pub closed spec fn current(&self) -> u64 {
        self.cur
    }

    /// Whether the count has arrived at the ceiling.
    pub open spec fn is_reached(&self) -> bool {
        self.current() >= self.max()
    }

    /// A counter at zero with ceiling `max`.
    pub fn new(max: u64) -> (limit: IterLimit)
        ensures
            limit.max() == max,
            limit.current() == 0,
    {
        IterLimit { max: max, cur: 0 }
    }

    /// Counts one more generation.
    pub fn inc(&mut self)
        requires
            old(self).current() < u64::MAX,
        ensures
            final(self).current() == old(self).current() + 1,
            final(self).max() == old(self).max(),
    {
        self.cur = self.cur + 1;
    }

    /// Whether the ceiling is reached: the count is at or above the maximum.
    pub fn reached(&self) -> (r: bool)
        ensures
            r == self.is_reached(),
    {
        self.cur >= self.max
    }

    /// The number of generations counted so far.
    pub fn get(&self) -> (n: u64)
        ensures
            n == self.current(),
    {
        self.cur
    }
}

} // verus!
