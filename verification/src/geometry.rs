//! Whole-pixel geometry shared by layout and rendering.

use vstd::prelude::*;

verus! {

/// A position in whole pixels.
#[derive(Debug, Copy, Clone, PartialEq, Eq, Structural)]
pub struct Point {
    pub x: i32,
    pub y: i32,
}

/// An extent in whole pixels.
#[derive(Debug, Copy, Clone, PartialEq, Eq, Structural)]
pub struct Size {
    pub width: i32,
    pub height: i32,
}

/// The result of laying out one node: where it is and how large.
#[derive(Debug, Copy, Clone, PartialEq, Eq, Structural)]
pub struct Layout {
    pub size: Size,
    pub location: Point,
}

/// The coordinate nearest to `v`: `v` itself where it is in the range of a
/// coordinate, else the end of the range on its side.
pub open spec fn spec_clamp(v: int) -> i32 {
    if v > i32::MAX {
        i32::MAX
    } else if v < i32::MIN {
        i32::MIN
    } else {
        v as i32
    }
}

/// Brings a value into the range of a coordinate.
pub fn clamp(v: i64) -> (r: i32)
    ensures
        r == spec_clamp(v as int),
{
    if v > i32::MAX as i64 {
        i32::MAX
    } else if v < i32::MIN as i64 {
        i32::MIN
    } else {
        v as i32
    }
}

/// The sum of two coordinates, held at the end of the range where it would leave it.
pub open spec fn spec_offset_by(a: i32, b: i32) -> i32 {
    spec_clamp(a + b)
}

/// Adds two coordinates. A sum past either end of the range stays at that end.
pub fn offset_by(a: i32, b: i32) -> (r: i32)
    ensures
        r == spec_offset_by(a, b),
{
    clamp(a as i64 + b as i64)
}

impl Point {
    /// This point moved by `by`, each coordinate added on its own.
    pub open spec fn spec_translated(self, by: Point) -> Point {
        Point { x: spec_offset_by(self.x, by.x), y: spec_offset_by(self.y, by.y) }
    }

    /// Moves the point by `by`.
    pub fn translated(self, by: Point) -> (p: Point)
        ensures
            p == self.spec_translated(by),
    {
        Point { x: offset_by(self.x, by.x), y: offset_by(self.y, by.y) }
    }
}

impl Layout {
    /// This layout with its location moved by `by`.
    pub open spec fn spec_translated(self, by: Point) -> Layout {
        Layout { size: self.size, location: self.location.spec_translated(by) }
    }

    /// Moves the layout by `by`, keeping its size and order.
    pub fn translated(self, by: Point) -> (l: Layout)
        ensures
            l == self.spec_translated(by),
    {
        Layout { size: self.size, location: self.location.translated(by) }
    }
}

impl Layout {
    /// Whether `pos` lies in the box of the layout. The left and the upper
    /// edge belong to the box, the right and the lower edge do not.
    pub open spec fn spec_contains(self, pos: Point) -> bool {
        &&& 0 <= pos.x - self.location.x < self.size.width
        &&& 0 <= pos.y - self.location.y < self.size.height
    }

    /// Whether `pos` lies in the box of the layout.
    pub fn contains(&self, pos: Point) -> (inside: bool)
        ensures
            inside == self.spec_contains(pos),
    {
        let local_x: i64 = pos.x as i64 - self.location.x as i64;
        let local_y: i64 = pos.y as i64 - self.location.y as i64;
        0 <= local_x && 0 <= local_y && local_x < self.size.width as i64 && local_y
            < self.size.height as i64
    }

    /// Whether the height of `pos` lies in the box of the layout.
    pub open spec fn spec_spans(self, pos: Point) -> bool {
        0 <= pos.y - self.location.y < self.size.height
    }

    /// Whether the height of `pos` lies in the box of the layout.
    pub fn spans(&self, pos: Point) -> (inside: bool)
        ensures
            inside == self.spec_spans(pos),
    {
        let local_y: i64 = pos.y as i64 - self.location.y as i64;
        0 <= local_y && local_y < self.size.height as i64
    }
}

} // verus!
