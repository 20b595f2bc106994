//! A counter that yields 1 to 5 and then nothing.
use vstd::prelude::*;

verus! {

/// The last count that `next` yields.
pub const COUNTER_LIMIT: u32 = 5;

pub struct Counter {
    cnt: u32,
}

impl Counter {
    /// How many counts have been yielded.
    pub closed spec fn count(&self) -> u32 {
        self.cnt
    }

    pub fn new() -> (c: Counter)
        ensures
            c.count() == 0,
    {
        Counter { cnt: 0 }
    }

    /// The next count, or `None` once five have been yielded.
    pub fn next(&mut self) -> (r: Option<u32>)
        ensures
            old(self).count() < COUNTER_LIMIT ==> r == Some((old(self).count() + 1) as u32)
                && final(self).count() == old(self).count() + 1,
            old(self).count() >= COUNTER_LIMIT ==> r is None && final(self).count() == old(
                self).count(),
    {
        if self.cnt < COUNTER_LIMIT {
            self.cnt = self.cnt + 1;
            Some(self.cnt)
        } else {
            None
        }
    }
}

} // verus!
