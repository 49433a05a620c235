//! Points, sizes and axis-aligned rectangles over fixed-point coordinates.

use vstd::prelude::*;
use crate::fx::{clamp64, sat_add, sat_sub, sat_neg};

verus! {

/// A point (or displacement vector) in the model plane.
#[derive(Debug, Clone, Copy, PartialEq, Eq, Structural)]
pub struct Point {
    /// Horizontal coordinate, fixed-point.
    pub x: i64,
    /// Vertical coordinate, fixed-point.
    pub y: i64,
}

/// A width and height pair.
#[derive(Debug, Clone, Copy, PartialEq, Eq, Structural)]
pub struct Size {
    /// Width, fixed-point.
    pub w: i64,
    /// Height, fixed-point.
    pub h: i64,
}

impl Point {
    /// The origin.
    pub fn zero() -> (r: Point)
        ensures
            r.x == 0 && r.y == 0,
    {
        Point { x: 0, y: 0 }
    }

    /// Componentwise saturating sum.
    pub fn plus(self, o: Point) -> (r: Point)
        ensures
            r.x as int == clamp64(self.x + o.x),
            r.y as int == clamp64(self.y + o.y),
    {
        Point { x: sat_add(self.x, o.x), y: sat_add(self.y, o.y) }
    }

    /// Componentwise saturating difference.
    pub fn minus(self, o: Point) -> (r: Point)
        ensures
            r.x as int == clamp64(self.x - o.x),
            r.y as int == clamp64(self.y - o.y),
    {
        Point { x: sat_sub(self.x, o.x), y: sat_sub(self.y, o.y) }
    }

    /// Componentwise saturating negation.
    pub fn negate(self) -> (r: Point)
        ensures
            r.x as int == clamp64(-self.x),
            r.y as int == clamp64(-self.y),
    {
        Point { x: sat_neg(self.x), y: sat_neg(self.y) }
    }
}

/// An axis-aligned rectangle; well-formed when the minima do not exceed the
/// maxima.
#[derive(Debug, Clone, Copy, PartialEq, Eq, Structural)]
pub struct Rect {
    /// Least x.
    pub x0: i64,
    /// Least y.
    pub y0: i64,
    /// Greatest x.
    pub x1: i64,
    /// Greatest y.
    pub y1: i64,
}

/// Minimum of two integers.
pub open spec fn min_i(a: int, b: int) -> int {
    if a <= b {
        a
    } else {
        b
    }
}

/// Maximum of two integers.
pub open spec fn max_i(a: int, b: int) -> int {
    if a >= b {
        a
    } else {
        b
    }
}

/// Two rectangles overlap when they share at least one point (their closed
/// extents intersect on both axes).
pub open spec fn rects_overlap(a: Rect, b: Rect) -> bool {
    a.x0 <= b.x1 && b.x0 <= a.x1 && a.y0 <= b.y1 && b.y0 <= a.y1
}

/// `outer` fully contains `inner`.
pub open spec fn rect_contains(outer: Rect, inner: Rect) -> bool {
    outer.x0 <= inner.x0 && inner.x1 <= outer.x1 && outer.y0 <= inner.y0 && inner.y1 <= outer.y1
}

impl Rect {
    /// The rectangle is well-formed.
    pub open spec fn wf(self) -> bool {
        self.x0 <= self.x1 && self.y0 <= self.y1
    }

    /// The smallest rectangle holding both given points.
    pub fn from_points(a: Point, b: Point) -> (r: Rect)
        ensures
            r.wf(),
            r.x0 as int == min_i(a.x as int, b.x as int),
            r.y0 as int == min_i(a.y as int, b.y as int),
            r.x1 as int == max_i(a.x as int, b.x as int),
            r.y1 as int == max_i(a.y as int, b.y as int),
    {
        Rect {
            x0: if a.x <= b.x {
                a.x
            } else {
                b.x
            },
            y0: if a.y <= b.y {
                a.y
            } else {
                b.y
            },
            x1: if a.x >= b.x {
                a.x
            } else {
                b.x
            },
            y1: if a.y >= b.y {
                a.y
            } else {
                b.y
            },
        }
    }

    /// The degenerate rectangle at one point.
    pub fn at_point(p: Point) -> (r: Rect)
        ensures
            r.wf(),
            r.x0 == p.x && r.y0 == p.y && r.x1 == p.x && r.y1 == p.y,
    {
        Rect { x0: p.x, y0: p.y, x1: p.x, y1: p.y }
    }

    /// The smallest rectangle holding both arguments.
    pub fn union(self, o: Rect) -> (r: Rect)
        requires
            self.wf(),
            o.wf(),
        ensures
            r.wf(),
            r.x0 as int == min_i(self.x0 as int, o.x0 as int),
            r.y0 as int == min_i(self.y0 as int, o.y0 as int),
            r.x1 as int == max_i(self.x1 as int, o.x1 as int),
            r.y1 as int == max_i(self.y1 as int, o.y1 as int),
    {
        Rect {
            x0: if self.x0 <= o.x0 {
                self.x0
            } else {
                o.x0
            },
            y0: if self.y0 <= o.y0 {
                self.y0
            } else {
                o.y0
            },
            x1: if self.x1 >= o.x1 {
                self.x1
            } else {
                o.x1
            },
            y1: if self.y1 >= o.y1 {
                self.y1
            } else {
                o.y1
            },
        }
    }

    /// Grow the rectangle outward by a non-negative margin on every side.
    pub fn inflate(self, m: i64) -> (r: Rect)
        requires
            self.wf(),
            m >= 0,
        ensures
            r.wf(),
            r.x0 as int == clamp64(self.x0 - m),
            r.y0 as int == clamp64(self.y0 - m),
            r.x1 as int == clamp64(self.x1 + m),
            r.y1 as int == clamp64(self.y1 + m),
    {
        Rect {
            x0: sat_sub(self.x0, m),
            y0: sat_sub(self.y0, m),
            x1: sat_add(self.x1, m),
            y1: sat_add(self.y1, m),
        }
    }

    /// Whether this rectangle and `o` share a point.
    pub fn overlaps(self, o: Rect) -> (r: bool)
        ensures
            r == rects_overlap(self, o),
    {
        self.x0 <= o.x1 && o.x0 <= self.x1 && self.y0 <= o.y1 && o.y0 <= self.y1
    }

    /// Whether this rectangle fully contains `o`.
    pub fn contains_rect(self, o: Rect) -> (r: bool)
        ensures
            r == rect_contains(self, o),
    {
        self.x0 <= o.x0 && o.x1 <= self.x1 && self.y0 <= o.y0 && o.y1 <= self.y1
    }
}

} // verus!
