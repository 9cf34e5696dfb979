//! Value types for screen geometry: points, sizes, displacements and
//! rectangles, with the arithmetic the layout engine needs.

use vstd::prelude::*;

verus! {

/// A position in pixels.
#[derive(Debug, PartialEq, Eq, Structural, Clone, Copy)]
pub struct Point {
    pub x: i32,
    pub y: i32,
}

impl Point {
    pub fn x(&self) -> (r: i32)
        ensures
            r == self.x,
    {
        self.x
    }

    pub fn y(&self) -> (r: i32)
        ensures
            r == self.y,
    {
        self.y
    }

    /// Vector from `other` to `self`.
    pub fn sub(self, other: Point) -> (r: Displacement)
        requires
            i32::MIN <= self.x - other.x <= i32::MAX,
            i32::MIN <= self.y - other.y <= i32::MAX,
        ensures
            r.dx == self.x - other.x,
            r.dy == self.y - other.y,
    {
        Displacement { dx: self.x - other.x, dy: self.y - other.y }
    }

    /// The point moved by a displacement.
    pub fn plus(self, d: Displacement) -> (r: Point)
        requires
            i32::MIN <= self.x + d.dx <= i32::MAX,
            i32::MIN <= self.y + d.dy <= i32::MAX,
        ensures
            r.x == self.x + d.dx,
            r.y == self.y + d.dy,
    {
        Point { x: self.x + d.dx, y: self.y + d.dy }
    }

    /// The point moved against a displacement.
    pub fn minus(self, d: Displacement) -> (r: Point)
        requires
            i32::MIN <= self.x - d.dx <= i32::MAX,
            i32::MIN <= self.y - d.dy <= i32::MAX,
        ensures
            r.x == self.x - d.dx,
            r.y == self.y - d.dy,
    {
        Point { x: self.x - d.dx, y: self.y - d.dy }
    }
}

impl Default for Point {
    fn default() -> (r: Point)
        ensures
            r.x == 0 && r.y == 0,
    {
        Point { x: 0, y: 0 }
    }
}

/// An extent in pixels.
#[derive(Debug, PartialEq, Eq, Structural, Clone, Copy)]
pub struct Size {
    pub width: i32,
    pub height: i32,
}

impl Size {
    pub fn width(&self) -> (r: i32)
        ensures
            r == self.width,
    {
        self.width
    }

    pub fn height(&self) -> (r: i32)
        ensures
            r == self.height,
    {
        self.height
    }

    pub fn with_width(&self, width: i32) -> (r: Size)
        ensures
            r.width == width,
            r.height == self.height,
    {
        Size { width, height: self.height }
    }

    pub fn with_height(&self, height: i32) -> (r: Size)
        ensures
            r.width == self.width,
            r.height == height,
    {
        Size { width: self.width, height }
    }

    /// Component-wise sum of two sizes.
    pub fn add(self, other: Size) -> (r: Size)
        requires
            i32::MIN <= self.width + other.width <= i32::MAX,
            i32::MIN <= self.height + other.height <= i32::MAX,
        ensures
            r.width == self.width + other.width,
            r.height == self.height + other.height,
    {
        Size { width: self.width + other.width, height: self.height + other.height }
    }

    /// Component-wise difference of two sizes.
    pub fn sub(self, other: Size) -> (r: Size)
        requires
            i32::MIN <= self.width - other.width <= i32::MAX,
            i32::MIN <= self.height - other.height <= i32::MAX,
        ensures
            r.width == self.width - other.width,
            r.height == self.height - other.height,
    {
        Size { width: self.width - other.width, height: self.height - other.height }
    }
}

impl Default for Size {
    fn default() -> (r: Size)
        ensures
            r.width == 0 && r.height == 0,
    {
        Size { width: 0, height: 0 }
    }
}

/// A difference between two points.
#[derive(Debug, PartialEq, Eq, Structural, Clone, Copy)]
pub struct Displacement {
    pub dx: i32,
    pub dy: i32,
}

impl Default for Displacement {
    fn default() -> (r: Displacement)
        ensures
            r.dx == 0 && r.dy == 0,
    {
        Displacement { dx: 0, dy: 0 }
    }
}

/// An axis-aligned rectangle given by its top-left corner and its size,
/// in the layout used by the compositor's box type.
#[allow(non_camel_case_types)]
#[derive(Debug, PartialEq, Eq, Structural, Clone, Copy)]
pub struct wlr_box {
    pub x: i32,
    pub y: i32,
    pub width: i32,
    pub height: i32,
}

impl Default for wlr_box {
    fn default() -> (r: wlr_box)
        ensures
            r.x == 0 && r.y == 0 && r.width == 0 && r.height == 0,
    {
        wlr_box { x: 0, y: 0, width: 0, height: 0 }
    }
}

/// Read and update a rectangle through its edges and its size.
pub trait Rectangle: Sized {
    spec fn spec_left(&self) -> int;

    spec fn spec_top(&self) -> int;

    spec fn spec_width(&self) -> int;

    spec fn spec_height(&self) -> int;

    fn left(&self) -> (r: i32)
        ensures
            r == self.spec_left(),
    ;

    fn top(&self) -> (r: i32)
        ensures
            r == self.spec_top(),
    ;

    fn right(&self) -> (r: i32)
        requires
            i32::MIN <= self.spec_left() + self.spec_width() <= i32::MAX,
        ensures
            r == self.spec_left() + self.spec_width(),
    ;

    fn bottom(&self) -> (r: i32)
        requires
            i32::MIN <= self.spec_top() + self.spec_height() <= i32::MAX,
        ensures
            r == self.spec_top() + self.spec_height(),
    ;

    fn width(&self) -> (r: i32)
        ensures
            r == self.spec_width(),
    ;

    fn height(&self) -> (r: i32)
        ensures
            r == self.spec_height(),
    ;

    fn top_left(&self) -> (r: Point)
        ensures
            r.x == self.spec_left(),
            r.y == self.spec_top(),
    ;

    fn bottom_right(&self) -> (r: Point)
        requires
            i32::MIN <= self.spec_left() + self.spec_width() <= i32::MAX,
            i32::MIN <= self.spec_top() + self.spec_height() <= i32::MAX,
        ensures
            r.x == self.spec_left() + self.spec_width(),
            r.y == self.spec_top() + self.spec_height(),
    ;

    fn size(&self) -> (r: Size)
        ensures
            r.width == self.spec_width(),
            r.height == self.spec_height(),
    ;

    fn set_top_left(&mut self, top_left: Point)
        ensures
            final(self).spec_left() == top_left.x,
            final(self).spec_top() == top_left.y,
            final(self).spec_width() == old(self).spec_width(),
            final(self).spec_height() == old(self).spec_height(),
    ;

    fn set_size(&mut self, size: Size)
        ensures
            final(self).spec_left() == old(self).spec_left(),
            final(self).spec_top() == old(self).spec_top(),
            final(self).spec_width() == size.width,
            final(self).spec_height() == size.height,
    ;

    /// A copy of the rectangle with the same corner and the given size.
    fn with_size(&mut self, size: Size) -> (r: Self)
        ensures
            *final(self) == *old(self),
            r.spec_left() == old(self).spec_left(),
            r.spec_top() == old(self).spec_top(),
            r.spec_width() == size.width,
            r.spec_height() == size.height,
    ;

    /// Whether the point lies inside the rectangle; the right and bottom
    /// edges are outside.
    fn contains(&self, point: &Point) -> (r: bool)
        requires
            i32::MIN <= self.spec_left() + self.spec_width() <= i32::MAX,
            i32::MIN <= self.spec_top() + self.spec_height() <= i32::MAX,
        ensures
            r == (self.spec_left() <= point.x < self.spec_left() + self.spec_width()
                && self.spec_top() <= point.y < self.spec_top() + self.spec_height()),
    ;
}

impl Rectangle for wlr_box {
    open spec fn spec_left(&self) -> int {
        self.x as int
    }

    open spec fn spec_top(&self) -> int {
        self.y as int
    }

    open spec fn spec_width(&self) -> int {
        self.width as int
    }

    open spec fn spec_height(&self) -> int {
        self.height as int
    }

    fn left(&self) -> i32 {
        self.x
    }

    fn top(&self) -> i32 {
        self.y
    }

    fn right(&self) -> i32 {
        self.x + self.width
    }

    fn bottom(&self) -> i32 {
        self.y + self.height
    }

    fn width(&self) -> i32 {
        self.width
    }

    fn height(&self) -> i32 {
        self.height
    }

    fn top_left(&self) -> Point {
        Point { x: self.x, y: self.y }
    }

    fn bottom_right(&self) -> Point {
        Point { x: self.x + self.width, y: self.y + self.height }
    }

    fn size(&self) -> Size {
        Size { width: self.width, height: self.height }
    }

    fn set_top_left(&mut self, top_left: Point) {
        self.x = top_left.x;
        self.y = top_left.y;
    }

    fn set_size(&mut self, size: Size) {
        self.width = size.width;
        self.height = size.height;
    }

    fn with_size(&mut self, size: Size) -> wlr_box {
        let mut new_geo = self.clone();
        new_geo.set_size(size);
        new_geo
    }

    fn contains(&self, point: &Point) -> bool {
        self.x <= point.x && self.x + self.width > point.x && self.y <= point.y && self.y
            + self.height > point.y
    }
}

} // verus!
