//! Integer screen geometry: points, sizes and rectangles.

use vstd::prelude::*;

verus! {

/// Rust's signed division truncates toward zero; spec `/` is Euclidean.
pub open spec fn trunc_div(a: int, b: int) -> int {
    if a >= 0 {
        a / b
    } else {
        -((-a) / b)
    }
}

/// Whether a mathematical integer fits in an `i32`.
pub open spec fn fits_i32(v: int) -> bool {
    i32::MIN <= v <= i32::MAX
}

/// Identifier of a widget. The value `0` is the default identifier.
#[derive(Clone, Copy, Debug, PartialEq, Eq, Structural, Hash, PartialOrd, Ord)]
pub struct WidgetId(pub u64);

impl Default for WidgetId {
    fn default() -> (id: WidgetId)
        ensures
            id.0 == 0,
    {
        WidgetId(0)
    }
}

impl WidgetId {
    pub fn default_id() -> (id: WidgetId)
        ensures
            id.0 == 0,
    {
        WidgetId(0)
    }
}

#[derive(Clone, Copy, Debug, PartialEq, Eq, Structural)]
pub struct Point {
    pub x: i32,
    pub y: i32,
}

impl Point {
    pub fn new(x: i32, y: i32) -> (p: Point)
        ensures
            p.x == x,
            p.y == y,
    {
        Point { x, y }
    }

    pub fn zero() -> (p: Point)
        ensures
            p.x == 0,
            p.y == 0,
    {
        Point { x: 0, y: 0 }
    }
}

#[derive(Clone, Copy, Debug, PartialEq, Eq, Structural)]
pub struct Size {
    pub width: i32,
    pub height: i32,
}

impl Size {
    pub fn new(width: i32, height: i32) -> (s: Size)
        ensures
            s.width == width,
            s.height == height,
    {
        Size { width, height }
    }
}

/// An axis-aligned rectangle: origin `(x, y)`, extent `width` by `height`.
/// It covers the half-open ranges `[x, x + width)` and `[y, y + height)`.
#[derive(Clone, Copy, Debug, PartialEq, Eq, Structural)]
pub struct Rect {
    pub x: i32,
    pub y: i32,
    pub width: i32,
    pub height: i32,
}

impl Rect {
    pub fn new(x: i32, y: i32, width: i32, height: i32) -> (r: Rect)
        ensures
            r.x == x,
            r.y == y,
            r.width == width,
            r.height == height,
    {
        Rect { x, y, width, height }
    }

    pub fn empty() -> (r: Rect)
        ensures
            r.x == 0 && r.y == 0 && r.width == 0 && r.height == 0,
    {
        Rect { x: 0, y: 0, width: 0, height: 0 }
    }

    pub open spec fn right_spec(self) -> int {
        self.x + self.width
    }

    pub open spec fn bottom_spec(self) -> int {
        self.y + self.height
    }

    /// Right and bottom edges and the centre are representable.
    pub open spec fn wf(self) -> bool {
        &&& fits_i32(self.right_spec())
        &&& fits_i32(self.bottom_spec())
    }

    pub open spec fn contains_spec(self, p: Point) -> bool {
        &&& self.x <= p.x < self.x + self.width
        &&& self.y <= p.y < self.y + self.height
    }

    pub open spec fn center_x_spec(self) -> int {
        self.x + trunc_div(self.width as int, 2)
    }

    pub open spec fn center_y_spec(self) -> int {
        self.y + trunc_div(self.height as int, 2)
    }

    pub fn contains(&self, p: Point) -> (b: bool)
        ensures
            b == self.contains_spec(p),
    {
        let x = self.x as i64;
        let y = self.y as i64;
        let px = p.x as i64;
        let py = p.y as i64;
        x <= px && px < x + self.width as i64 && y <= py && py < y + self.height as i64
    }

    /// Whether the two rectangles share an area.
    pub open spec fn overlaps_spec(self, other: Rect) -> bool {
        &&& self.x < other.x + other.width
        &&& other.x < self.x + self.width
        &&& self.y < other.y + other.height
        &&& other.y < self.y + self.height
    }

    pub fn intersects(&self, other: &Rect) -> (b: bool)
        ensures
            b == self.overlaps_spec(*other),
    {
        let (ax, ay, aw, ah) = (self.x as i64, self.y as i64, self.width as i64, self.height as i64);
        let (bx, by, bw, bh) = (other.x as i64, other.y as i64, other.width as i64, other.height as i64);
        ax < bx + bw && bx < ax + aw && ay < by + bh && by < ay + ah
    }

    pub fn right(&self) -> (r: i32)
        requires
            fits_i32(self.right_spec()),
        ensures
            r == self.right_spec(),
    {
        self.x + self.width
    }

    pub fn bottom(&self) -> (r: i32)
        requires
            fits_i32(self.bottom_spec()),
        ensures
            r == self.bottom_spec(),
    {
        self.y + self.height
    }

    pub fn center(&self) -> (p: Point)
        requires
            fits_i32(self.center_x_spec()),
            fits_i32(self.center_y_spec()),
        ensures
            p.x == self.center_x_spec(),
            p.y == self.center_y_spec(),
    {
        Point { x: self.x + self.width / 2, y: self.y + self.height / 2 }
    }
}

} // verus!
