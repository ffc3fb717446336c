//! A counter of events.
use vstd::prelude::*;

verus! {

/// A count of events. It stops at the largest machine word.
#[derive(Debug, Clone, Copy, PartialEq, Eq, Structural)]
pub struct Counter(pub usize);

impl Counter {
    /// The sum of two counts, or the largest machine word where the sum
    /// lies beyond it.
    pub open spec fn sum(a: usize, b: usize) -> usize {
        if a + b <= usize::MAX {
            (a + b) as usize
        } else {
            usize::MAX
        }
    }

    pub fn new() -> (c: Self)
        ensures
            c.0 == 0,
    {
        Counter(0)
    }

    /// Counts one event.
    pub fn count(&mut self)
        ensures
            final(self).0 == Self::sum(old(self).0, 1),
    {
        if self.0 < usize::MAX {
            self.0 = self.0 + 1;
        }
    }

    /// Counts the events of `other` in.
    pub fn add(&mut self, other: Counter)
        ensures
            final(self).0 == Self::sum(old(self).0, other.0),
    {
        if other.0 <= usize::MAX - self.0 {
            self.0 = self.0 + other.0;
        } else {
            self.0 = usize::MAX;
        }
    }

    pub fn get(&self) -> (n: usize)
        ensures
            n == self.0,
    {
        self.0
    }
}

impl Default for Counter {
    fn default() -> (c: Self)
        ensures
            c.0 == 0,
    {
        Counter(0)
    }
}

} // verus!
