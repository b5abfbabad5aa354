//! Plain geometry values for the pixel coordinate spaces the library draws
//! in: integer points, unsigned extents, axis-aligned rectangles and single
//! pixels. A rectangle is the half-open area `[x, x + width) x [y, y + height)`
//! anchored at its top-left corner.

use vstd::prelude::*;

verus! {

/// A position in a pixel coordinate space. Coordinates may be negative:
/// a drawable may well start above or left of the target it is drawn to.
#[derive(Clone, Copy, Debug, PartialEq, Eq, PartialOrd, Ord, Hash, Structural)]
pub struct Point {
    pub x: i32,
    pub y: i32,
}

impl Point {
    /// Creates a point from its two coordinates.
    pub fn new(x: i32, y: i32) -> (r: Self)
        ensures
            r == (Point { x, y }),
    {
        Point { x, y }
    }

    /// The origin.
    pub fn zero() -> (r: Self)
        ensures
            r == (Point { x: 0, y: 0 }),
    {
        Point { x: 0, y: 0 }
    }
}

/// A width and height in pixels. Either extent may be zero, in which case
/// the described area is empty.
#[derive(Clone, Copy, Debug, PartialEq, Eq, PartialOrd, Ord, Hash, Structural)]
pub struct Size {
    pub width: u32,
    pub height: u32,
}

impl Size {
    /// Creates a size from a width and a height.
    pub fn new(width: u32, height: u32) -> (r: Self)
        ensures
            r == (Size { width, height }),
    {
        Size { width, height }
    }

    /// The empty size.
    pub fn zero() -> (r: Self)
        ensures
            r == (Size { width: 0, height: 0 }),
    {
        Size { width: 0, height: 0 }
    }
}

/// A single pixel: a position and the color to put there.
#[derive(Clone, Copy, Debug, PartialEq, Eq)]
pub struct Pixel<C>(pub Point, pub C);

/// An axis-aligned rectangle, given by its top-left corner and its extent.
#[derive(Clone, Copy, Debug, PartialEq, Eq, PartialOrd, Ord, Hash, Structural)]
pub struct Rectangle {
    pub top_left: Point,
    pub size: Size,
}

impl Rectangle {
    /// The leftmost column covered by the rectangle.
    pub open spec fn x0(&self) -> int {
        self.top_left.x as int
    }

    /// The topmost row covered by the rectangle.
    pub open spec fn y0(&self) -> int {
        self.top_left.y as int
    }

    /// One past the rightmost column covered by the rectangle.
    pub open spec fn x1(&self) -> int {
        self.x0() + self.size.width
    }

    /// One past the bottom row covered by the rectangle.
    pub open spec fn y1(&self) -> int {
        self.y0() + self.size.height
    }

    /// Whether the rectangle covers no pixel at all.
    pub open spec fn spec_is_empty(&self) -> bool {
        self.size.width == 0 || self.size.height == 0
    }

    /// Whether the rectangle covers the pixel at `(x, y)`.
    pub open spec fn spec_contains(&self, x: int, y: int) -> bool {
        self.x0() <= x < self.x1() && self.y0() <= y < self.y1()
    }

    /// The row-major position of `(x, y)` within the rectangle's full,
    /// unclipped extent: how many items of a sequence covering the rectangle
    /// row by row come before the item for `(x, y)`.
    pub open spec fn spec_index_of(&self, x: int, y: int) -> int {
        (y - self.y0()) * self.size.width + (x - self.x0())
    }

    /// Creates a rectangle from its top-left corner and its size.
    pub fn new(top_left: Point, size: Size) -> (r: Self)
        ensures
            r == (Rectangle { top_left, size }),
    {
        Rectangle { top_left, size }
    }

    /// The empty rectangle at the origin.
    pub fn zero() -> (r: Self)
        ensures
            r == (Rectangle { top_left: Point { x: 0, y: 0 }, size: Size { width: 0, height: 0 } }),
    {
        Rectangle { top_left: Point { x: 0, y: 0 }, size: Size { width: 0, height: 0 } }
    }

    /// Whether the rectangle covers no pixel at all.
    pub fn is_zero_sized(&self) -> (r: bool)
        ensures
            r == self.spec_is_empty(),
    {
        self.size.width == 0 || self.size.height == 0
    }

    /// The overlap of two rectangles: it covers exactly the pixels covered by
    /// both. When the two do not overlap, the result is the empty rectangle at
    /// the origin; otherwise its corners are pinned down exactly.
    pub fn intersection(&self, other: &Rectangle) -> (r: Rectangle)
        ensures
            forall|x: int, y: int|
                r.spec_contains(x, y) <==> self.spec_contains(x, y) && other.spec_contains(x, y),
            r.spec_is_empty() <==> !(vstd::math::max(self.x0(), other.x0())
                < vstd::math::min(self.x1(), other.x1()) && vstd::math::max(self.y0(), other.y0())
                < vstd::math::min(self.y1(), other.y1())),
            !r.spec_is_empty() ==> {
                &&& r.x0() == vstd::math::max(self.x0(), other.x0())
                &&& r.y0() == vstd::math::max(self.y0(), other.y0())
                &&& r.x1() == vstd::math::min(self.x1(), other.x1())
                &&& r.y1() == vstd::math::min(self.y1(), other.y1())
            },
    {
        let ax0: i64 = self.top_left.x as i64;
        let ay0: i64 = self.top_left.y as i64;
        let ax1: i64 = ax0 + self.size.width as i64;
        let ay1: i64 = ay0 + self.size.height as i64;
        let bx0: i64 = other.top_left.x as i64;
        let by0: i64 = other.top_left.y as i64;
        let bx1: i64 = bx0 + other.size.width as i64;
        let by1: i64 = by0 + other.size.height as i64;
        let ix0: i64 = if ax0 > bx0 { ax0 } else { bx0 };
        let iy0: i64 = if ay0 > by0 { ay0 } else { by0 };
        let ix1: i64 = if ax1 < bx1 { ax1 } else { bx1 };
        let iy1: i64 = if ay1 < by1 { ay1 } else { by1 };
        if ix0 < ix1 && iy0 < iy1 {
            Rectangle {
                top_left: Point { x: ix0 as i32, y: iy0 as i32 },
                size: Size { width: (ix1 - ix0) as u32, height: (iy1 - iy0) as u32 },
            }
        } else {
            Rectangle {
                top_left: Point { x: 0, y: 0 },
                size: Size { width: 0, height: 0 },
            }
        }
    }
}

} // verus!
