//! Points, sizes, rectangles and segments in device space.
//!
//! Coordinates are fixed-point integers: `UNIT` steps make one device unit,
//! so `2500` is two and a half units. Device y grows downwards.

use vstd::prelude::*;

use crate::round::floor_div;

verus! {

/// Fixed-point steps per device unit.
pub const UNIT: i64 = 1000;

/// Largest magnitude of a coordinate that layout accepts (2^40 steps).
pub const COORD_MAX: i64 = 1099511627776;

/// Whether `v` is a coordinate that layout accepts.
pub open spec fn in_bounds(v: int) -> bool {
    -COORD_MAX <= v <= COORD_MAX
}

#[derive(Clone, Copy, Debug, PartialEq, Eq, Structural)]
pub struct Point {
    pub x: i64,
    pub y: i64,
}

impl Point {
    pub fn new(x: i64, y: i64) -> (r: Point)
        ensures
            r.x == x,
            r.y == y,
    {
        Point { x, y }
    }

    pub open spec fn wf(&self) -> bool {
        in_bounds(self.x as int) && in_bounds(self.y as int)
    }
}

#[derive(Clone, Copy, Debug, PartialEq, Eq, Structural)]
pub struct Size {
    pub width: i64,
    pub height: i64,
}

impl Size {
    pub fn new(width: i64, height: i64) -> (r: Size)
        ensures
            r.width == width,
            r.height == height,
    {
        Size { width, height }
    }
}

/// An axis-aligned rectangle given by its two corners.
#[derive(Clone, Copy, Debug, PartialEq, Eq, Structural)]
pub struct Rect {
    pub x0: i64,
    pub y0: i64,
    pub x1: i64,
    pub y1: i64,
}

/// The rectangle spanned by one point.
pub open spec fn point_rect(p: Point) -> Rect {
    Rect { x0: p.x, y0: p.y, x1: p.x, y1: p.y }
}

pub open spec fn min_i64(a: i64, b: i64) -> i64 {
    if a <= b { a } else { b }
}

pub open spec fn max_i64(a: i64, b: i64) -> i64 {
    if a >= b { a } else { b }
}

impl Rect {
    pub fn new(x0: i64, y0: i64, x1: i64, y1: i64) -> (r: Rect)
        ensures
            r == (Rect { x0, y0, x1, y1 }),
    {
        Rect { x0, y0, x1, y1 }
    }

    /// Ordered corners, every coordinate in bounds.
    pub open spec fn wf(&self) -> bool {
        &&& in_bounds(self.x0 as int)
        &&& in_bounds(self.y0 as int)
        &&& in_bounds(self.x1 as int)
        &&& in_bounds(self.y1 as int)
        &&& self.x0 <= self.x1
        &&& self.y0 <= self.y1
    }

    pub open spec fn width_spec(&self) -> int {
        self.x1 - self.x0
    }

    pub open spec fn height_spec(&self) -> int {
        self.y1 - self.y0
    }

    /// Whether `p` lies in the rectangle, edges included.
    pub open spec fn holds(&self, p: Point) -> bool {
        self.x0 <= p.x <= self.x1 && self.y0 <= p.y <= self.y1
    }

    /// Whether `o` lies in the rectangle, edges included.
    pub open spec fn encloses(&self, o: Rect) -> bool {
        self.x0 <= o.x0 && o.x1 <= self.x1 && self.y0 <= o.y0 && o.y1 <= self.y1
    }

    pub open spec fn union_spec(&self, o: Rect) -> Rect {
        Rect {
            x0: min_i64(self.x0, o.x0),
            y0: min_i64(self.y0, o.y0),
            x1: max_i64(self.x1, o.x1),
            y1: max_i64(self.y1, o.y1),
        }
    }

    /// The centre, rounded down to a fixed-point step.
    pub open spec fn center_spec(&self) -> Point {
        Point {
            x: floor_div(self.x0 + self.x1, 2) as i64,
            y: floor_div(self.y0 + self.y1, 2) as i64,
        }
    }

    pub fn width(&self) -> (r: i64)
        requires
            self.wf(),
        ensures
            r == self.width_spec(),
    {
        self.x1 - self.x0
    }

    pub fn height(&self) -> (r: i64)
        requires
            self.wf(),
        ensures
            r == self.height_spec(),
    {
        self.y1 - self.y0
    }

    /// Width times height, in squared fixed-point steps.
    pub fn area(&self) -> (r: i128)
        requires
            self.wf(),
        ensures
            r == self.width_spec() * self.height_spec(),
    {
        let w = (self.x1 - self.x0) as i128;
        let h = (self.y1 - self.y0) as i128;
        proof {
            assert(0 <= w * h <= (2 * COORD_MAX) * (2 * COORD_MAX)) by (nonlinear_arith)
                requires 0 <= w <= 2 * COORD_MAX, 0 <= h <= 2 * COORD_MAX;
        }
        w * h
    }

    /// The smallest rectangle holding both.
    pub fn union(&self, o: &Rect) -> (r: Rect)
        ensures
            r == self.union_spec(*o),
    {
        Rect {
            x0: if self.x0 <= o.x0 { self.x0 } else { o.x0 },
            y0: if self.y0 <= o.y0 { self.y0 } else { o.y0 },
            x1: if self.x1 >= o.x1 { self.x1 } else { o.x1 },
            y1: if self.y1 >= o.y1 { self.y1 } else { o.y1 },
        }
    }

    pub fn center(&self) -> (r: Point)
        ensures
            r == self.center_spec(),
    {
        let sx = self.x0 as i128 + self.x1 as i128;
        let sy = self.y0 as i128 + self.y1 as i128;
        let cx = crate::round::div_floor(sx, 2);
        let cy = crate::round::div_floor(sy, 2);
        Point { x: cx as i64, y: cy as i64 }
    }
}

/// A straight segment from `p0` to `p1`.
#[derive(Clone, Copy, Debug, PartialEq, Eq, Structural)]
pub struct Line {
    pub p0: Point,
    pub p1: Point,
}

impl Line {
    pub fn new(p0: Point, p1: Point) -> (r: Line)
        ensures
            r.p0 == p0,
            r.p1 == p1,
    {
        Line { p0, p1 }
    }
}

} // verus!
