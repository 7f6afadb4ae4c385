//! Screen-space bounds of a triangle.
use vstd::prelude::*;

verus! {

/// The inclusive pixel box that a triangle covers.
pub struct Bounds {
    pub min_x: usize,
    pub max_x: usize,
    pub min_y: usize,
    pub max_y: usize,
}

impl Bounds {
    /// Rows to visit: from `min_y` to `max_y` clipped at `max`, both ends
    /// included (empty when the start is past the end).
    pub fn range_y(&self, max: usize) -> (r: (usize, usize))
        ensures
            r.0 == self.min_y,
            r.1 == if self.max_y < max { self.max_y } else { max },
    {
        (self.min_y, if self.max_y < max { self.max_y } else { max })
    }

    /// Columns to visit: from `min_x` to `max_x` clipped at `max`, both ends
    /// included (empty when the start is past the end).
    pub fn range_x(&self, max: usize) -> (r: (usize, usize))
        ensures
            r.0 == self.min_x,
            r.1 == if self.max_x < max { self.max_x } else { max },
    {
        (self.min_x, if self.max_x < max { self.max_x } else { max })
    }
}

} // verus!
