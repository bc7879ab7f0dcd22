use vstd::prelude::*;

verus! {

/// An axis-aligned rectangle in screen coordinates.
#[derive(Clone, Copy, Debug, PartialEq, Eq, Structural)]
pub struct Rect {
    pub x: i32,
    pub y: i32,
    pub width: i32,
    pub height: i32,
}

impl Rect {
    /// A rectangle with non-negative extent whose far edges are representable.
    pub open spec fn wf(self) -> bool {
        &&& 0 <= self.width
        &&& 0 <= self.height
        &&& self.x + self.width <= i32::MAX
        &&& self.y + self.height <= i32::MAX
    }

    /// The point lies in the rectangle, edges included.
    pub open spec fn spec_contains(self, px: int, py: int) -> bool {
        &&& self.x <= px <= self.x + self.width
        &&& self.y <= py <= self.y + self.height
    }

    pub fn new(x: i32, y: i32, width: i32, height: i32) -> (r: Rect)
        ensures
            r == (Rect { x, y, width, height }),
    {
        Rect { x, y, width, height }
    }

    /// The rectangle spanned by its left, top, right and bottom edges.
    pub fn from_edges(left: i32, top: i32, right: i32, bottom: i32) -> (r: Rect)
        requires
            i32::MIN <= right - left <= i32::MAX,
            i32::MIN <= bottom - top <= i32::MAX,
        ensures
            r.x == left,
            r.y == top,
            r.width == right - left,
            r.height == bottom - top,
    {
        Rect { x: left, y: top, width: right - left, height: bottom - top }
    }

    pub fn is_wf(&self) -> (r: bool)
        ensures
            r == self.wf(),
    {
        0 <= self.width && 0 <= self.height && self.x as i64 + self.width as i64 <= i32::MAX as i64
            && self.y as i64 + self.height as i64 <= i32::MAX as i64
    }

    pub fn contains(&self, px: i32, py: i32) -> (r: bool)
        ensures
            r == self.spec_contains(px as int, py as int),
    {
        let right = self.x as i64 + self.width as i64;
        let bottom = self.y as i64 + self.height as i64;
        self.x <= px && px as i64 <= right && self.y <= py && py as i64 <= bottom
    }

    /// The centre point, each coordinate rounded towards the left or top edge.
    pub fn center(&self) -> (r: (i32, i32))
        requires
            self.wf(),
        ensures
            r.0 == self.x + self.width / 2,
            r.1 == self.y + self.height / 2,
    {
        (self.x + self.width / 2, self.y + self.height / 2)
    }
}

} // verus!
