//! Integer geometry for node bounds and hit testing, in the native
//! coordinate space of the bound view.

use vstd::prelude::*;

verus! {

/// An axis-aligned rectangle. `x0 <= x < x1` and `y0 <= y < y1` are inside.
#[derive(Clone, Copy, Debug, PartialEq, Eq, Structural)]
pub struct Rect {
    pub x0: i64,
    pub y0: i64,
    pub x1: i64,
    pub y1: i64,
}

impl Rect {
    /// Whether the point `(x, y)` lies inside this rectangle.
    pub open spec fn spec_contains(self, x: i64, y: i64) -> bool {
        self.x0 <= x < self.x1 && self.y0 <= y < self.y1
    }

    /// Whether the point `(x, y)` lies inside this rectangle.
    pub fn contains(&self, x: i64, y: i64) -> (r: bool)
        ensures
            r == self.spec_contains(x, y),
    {
        self.x0 <= x && x < self.x1 && self.y0 <= y && y < self.y1
    }
}

} // verus!
