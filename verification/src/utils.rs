//! Keeping count of the work done.
use vstd::prelude::*;

pub mod progress;

verus! {

/// How far a rendering has come, by the pixel in work: its column and row,
/// both counted from zero, in an image of the given size.
pub struct Progress {
    pub curr_width: i32,
    pub curr_height: i32,
    pub total_height: i32,
    pub total_width: i32,
}

impl Progress {
    /// The number of the pixel in work, counted from one, row by row.
    pub open spec fn ordinal(&self) -> int {
        self.curr_height * self.total_width + self.curr_width + 1
    }

    /// The number of the pixel in work, counted from one, row by row.
    pub fn curr_pixel(&self) -> (n: i32)
        requires
            i32::MIN <= self.curr_height * self.total_width <= i32::MAX,
            i32::MIN <= self.curr_height * self.total_width + self.curr_width <= i32::MAX,
            i32::MIN <= self.ordinal() <= i32::MAX,
        ensures
            n == self.ordinal(),
    {
        self.curr_height * self.total_width + self.curr_width + 1
    }
}

} // verus!
