//! Points, sizes and rectangles in the compositor's logical output space.
//!
//! All coordinates are integers. The backend promises that every coordinate
//! it caches (window placements, buffer sizes, subsurface offsets, input
//! regions) stays within [`COORD_LIMIT`]; every box corner the registry ever
//! computes is a placement plus at most one cached offset per node of a
//! surface tree, so it stays within [`SPAN_LIMIT`] and all arithmetic below
//! fits in `i64`.

use vstd::prelude::*;

verus! {

/// Largest magnitude of any single coordinate cached by the backend, and of
/// the node count of any surface tree.
pub const COORD_LIMIT: i64 = 0x10_0000;

/// Largest magnitude of any accumulated coordinate: a placement plus one
/// offset of at most `COORD_LIMIT` per tree node, plus one buffer extent.
pub const SPAN_LIMIT: i64 = 0x10_0000 * (0x10_0000 + 2);

/// A location in logical output space.
#[derive(Clone, Copy, PartialEq, Eq, Structural, Debug)]
pub struct Point {
    pub x: i64,
    pub y: i64,
}

/// An extent in logical output space.
#[derive(Clone, Copy, PartialEq, Eq, Structural, Debug)]
pub struct Size {
    pub w: i64,
    pub h: i64,
}

/// An axis-aligned box: a location and a (non-negative) extent.
#[derive(Clone, Copy, PartialEq, Eq, Structural, Debug)]
pub struct Rect {
    pub loc: Point,
    pub size: Size,
}

/// The mathematical model of a box: its four corners, as unbounded integers.
pub struct IBox {
    pub x0: int,
    pub y0: int,
    pub x1: int,
    pub y1: int,
}

pub open spec fn min_int(a: int, b: int) -> int {
    if a <= b {
        a
    } else {
        b
    }
}

pub open spec fn max_int(a: int, b: int) -> int {
    if a >= b {
        a
    } else {
        b
    }
}

/// The union (smallest enclosing box) of two boxes.
pub open spec fn ibox_union(a: IBox, b: IBox) -> IBox {
    IBox {
        x0: min_int(a.x0, b.x0),
        y0: min_int(a.y0, b.y0),
        x1: max_int(a.x1, b.x1),
        y1: max_int(a.y1, b.y1),
    }
}

/// The degenerate box holding a single location and no area.
pub open spec fn point_box(x: int, y: int) -> IBox {
    IBox { x0: x, y0: y, x1: x, y1: y }
}

/// The box with origin `(x, y)` and extent `(w, h)`.
pub open spec fn extent_box(x: int, y: int, w: int, h: int) -> IBox {
    IBox { x0: x, y0: y, x1: x + w, y1: y + h }
}

pub open spec fn ibox_wf(b: IBox) -> bool {
    &&& -SPAN_LIMIT <= b.x0 <= b.x1 <= SPAN_LIMIT
    &&& -SPAN_LIMIT <= b.y0 <= b.y1 <= SPAN_LIMIT
}

impl Point {
    /// A coordinate the backend may cache.
    pub open spec fn wf(self) -> bool {
        &&& -COORD_LIMIT <= self.x <= COORD_LIMIT
        &&& -COORD_LIMIT <= self.y <= COORD_LIMIT
    }

    /// A query point for which the hit-test arithmetic cannot overflow.
    pub open spec fn in_span(self) -> bool {
        &&& -SPAN_LIMIT <= self.x <= SPAN_LIMIT
        &&& -SPAN_LIMIT <= self.y <= SPAN_LIMIT
    }

    /// The origin, the default location of a popup without cached geometry.
    pub fn origin() -> (r: Point)
        ensures
            r == (Point { x: 0, y: 0 }),
    {
        Point { x: 0, y: 0 }
    }
}

impl Size {
    /// An extent the backend may cache.
    pub open spec fn wf(self) -> bool {
        &&& 0 <= self.w <= COORD_LIMIT
        &&& 0 <= self.h <= COORD_LIMIT
    }
}

impl Rect {
    pub open spec fn x1(self) -> int {
        self.loc.x + self.size.w
    }

    pub open spec fn y1(self) -> int {
        self.loc.y + self.size.h
    }

    /// The model of this rectangle.
    pub open spec fn view_box(self) -> IBox {
        IBox { x0: self.loc.x as int, y0: self.loc.y as int, x1: self.x1(), y1: self.y1() }
    }

    pub open spec fn wf(self) -> bool {
        &&& 0 <= self.size.w
        &&& 0 <= self.size.h
        &&& -SPAN_LIMIT <= self.loc.x <= self.x1() <= SPAN_LIMIT
        &&& -SPAN_LIMIT <= self.loc.y <= self.y1() <= SPAN_LIMIT
    }

    pub open spec fn spec_contains(self, px: int, py: int) -> bool {
        &&& self.loc.x <= px < self.x1()
        &&& self.loc.y <= py < self.y1()
    }

    /// Whether `p` falls inside this rectangle (right and bottom edges
    /// excluded).
    pub fn contains(&self, p: Point) -> (r: bool)
        requires
            self.wf(),
        ensures
            r == self.spec_contains(p.x as int, p.y as int),
    {
        self.loc.x <= p.x && p.x < self.loc.x + self.size.w && self.loc.y <= p.y && p.y
            < self.loc.y + self.size.h
    }

    /// The rectangle with corners `(x0, y0)` and `(x1, y1)`.
    pub fn from_corners(x0: i64, y0: i64, x1: i64, y1: i64) -> (r: Rect)
        requires
            x0 <= x1,
            y0 <= y1,
            -SPAN_LIMIT <= x0,
            x1 <= SPAN_LIMIT,
            -SPAN_LIMIT <= y0,
            y1 <= SPAN_LIMIT,
        ensures
            r.view_box() == (IBox { x0: x0 as int, y0: y0 as int, x1: x1 as int, y1: y1 as int }),
            r.wf(),
    {
        Rect { loc: Point { x: x0, y: y0 }, size: Size { w: x1 - x0, h: y1 - y0 } }
    }
}

pub fn min_i64(a: i64, b: i64) -> (r: i64)
    ensures
        r == min_int(a as int, b as int),
{
    if a <= b {
        a
    } else {
        b
    }
}

pub fn max_i64(a: i64, b: i64) -> (r: i64)
    ensures
        r == max_int(a as int, b as int),
{
    if a >= b {
        a
    } else {
        b
    }
}

} // verus!
