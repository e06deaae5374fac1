//! Points, sizes and rectangles on the screen, in whole points.

use vstd::prelude::*;

verus! {

/// A position on the screen.
#[derive(Clone, Copy, Debug, PartialEq, Eq, Structural)]
pub struct Point {
    pub x: i64,
    pub y: i64,
}

/// The extent of a sprite frame or of the scene.
#[derive(Clone, Copy, Debug, PartialEq, Eq, Structural)]
pub struct Size {
    pub width: u32,
    pub height: u32,
}

/// An axis-aligned rectangle: its top left corner and its extent.
#[derive(Clone, Copy, Debug, PartialEq, Eq, Structural)]
pub struct Rect {
    pub origin: Point,
    pub size: Size,
}

impl Point {
    pub fn new(x: i64, y: i64) -> (point: Point)
        ensures
            point == (Point { x, y }),
    {
        Point { x, y }
    }
}

impl Size {
    pub fn new(width: u32, height: u32) -> (size: Size)
        ensures
            size == (Size { width, height }),
    {
        Size { width, height }
    }

    pub open spec fn area_spec(&self) -> int {
        self.width * self.height
    }

    /// The number of points that the extent covers.
    pub fn area(&self) -> (area: u64)
        ensures
            area == self.area_spec(),
    {
        assert(self.width * self.height <= 0xffff_ffff * 0xffff_ffff) by (nonlinear_arith)
            requires
                self.width <= 0xffff_ffff,
                self.height <= 0xffff_ffff,
        ;
        (self.width as u64) * (self.height as u64)
    }
}

impl Rect {
    pub open spec fn left(&self) -> int {
        self.origin.x as int
    }

    pub open spec fn top(&self) -> int {
        self.origin.y as int
    }

    pub open spec fn right(&self) -> int {
        self.origin.x + self.size.width
    }

    pub open spec fn bottom(&self) -> int {
        self.origin.y + self.size.height
    }

    /// Two rectangles intersect when their areas overlap. Rectangles whose
    /// edges merely touch do not.
    pub open spec fn intersects_spec(&self, other: &Rect) -> bool {
        &&& self.left() < other.right()
        &&& other.left() < self.right()
        &&& self.top() < other.bottom()
        &&& other.top() < self.bottom()
    }

    /// A rectangle contains the points from its left and top edges up to,
    /// but not on, its right and bottom edges.
    pub open spec fn contains_spec(&self, point: Point) -> bool {
        &&& self.left() <= point.x < self.right()
        &&& self.top() <= point.y < self.bottom()
    }

    pub fn sized(origin: Point, size: Size) -> (rect: Rect)
        ensures
            rect == (Rect { origin, size }),
    {
        Rect { origin, size }
    }

    pub fn contains(&self, point: Point) -> (inside: bool)
        ensures
            inside == self.contains_spec(point),
    {
        let x: i128 = point.x as i128;
        let y: i128 = point.y as i128;
        let left: i128 = self.origin.x as i128;
        let top: i128 = self.origin.y as i128;
        left <= x && x < left + self.size.width as i128 && top <= y && y < top
            + self.size.height as i128
    }

    pub fn intersects_with(&self, other: &Rect) -> (overlap: bool)
        ensures
            overlap == self.intersects_spec(other),
    {
        let left: i128 = self.origin.x as i128;
        let top: i128 = self.origin.y as i128;
        let right: i128 = left + self.size.width as i128;
        let bottom: i128 = top + self.size.height as i128;
        let other_left: i128 = other.origin.x as i128;
        let other_top: i128 = other.origin.y as i128;
        let other_right: i128 = other_left + other.size.width as i128;
        let other_bottom: i128 = other_top + other.size.height as i128;
        left < other_right && other_left < right && top < other_bottom && other_top < bottom
    }
}

} // verus!
