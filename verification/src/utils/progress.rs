//! A counter of finished steps against a known total.
use vstd::prelude::*;

verus! {

/// The number of steps done so far, of `total` in all.
pub struct Progress {
    current: i32,
    total: i32,
}

impl View for Progress {
    type V = (int, int);

    /// The steps done and the total.
    closed spec fn view(&self) -> (int, int) {
        (self.current as int, self.total as int)
    }
}

impl Progress {
    /// A counter at zero.
    pub fn from(total: i32) -> (p: Self)
        ensures
            p@ == (0int, total as int),
    {
        Self { current: 0, total }
    }

    /// Counts one more step as done.
    pub fn increment(&mut self)
        requires
            old(self)@.0 < i32::MAX,
        ensures
            final(self)@ == (old(self)@.0 + 1, old(self)@.1),
    {
        self.current = self.current + 1;
    }

    /// The number of steps done.
    pub fn current(&self) -> (n: i32)
        ensures
            n == self@.0,
    {
        self.current
    }

    /// The number of steps in all.
    pub fn total(&self) -> (n: i32)
        ensures
            n == self@.1,
    {
        self.total
    }
}

} // verus!
