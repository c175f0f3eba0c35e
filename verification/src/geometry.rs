//! Rectangles, integer distance tests and rasterized lines.

use vstd::prelude::*;
use crate::components::Position;

verus! {

/// An axis-aligned rectangle over tile coordinates; room interiors are
/// carved strictly inside the `x1`/`y1` and `x2`/`y2` corners.
#[derive(Clone, Copy, Debug, PartialEq, Eq, Structural)]
pub struct Rect {
    pub x1: i32,
    pub y1: i32,
    pub x2: i32,
    pub y2: i32,
}

impl Rect {
    /// A rectangle from its top-left corner, width and height.
    pub fn with_size(x: i32, y: i32, w: i32, h: i32) -> (r: Rect)
        requires
            -100_000 <= x <= 100_000,
            -100_000 <= y <= 100_000,
            0 <= w <= 100_000,
            0 <= h <= 100_000,
        ensures
            r == (Rect { x1: x, y1: y, x2: (x + w) as i32, y2: (y + h) as i32 }),
    {
        Rect { x1: x, y1: y, x2: x + w, y2: y + h }
    }

    /// Whether two rectangles overlap or touch.
    pub fn intersect(&self, other: &Rect) -> (r: bool)
        ensures
            r == (self.x1 <= other.x2 && self.x2 >= other.x1 && self.y1 <= other.y2
                && self.y2 >= other.y1),
    {
        self.x1 <= other.x2 && self.x2 >= other.x1 && self.y1 <= other.y2 && self.y2 >= other.y1
    }

    /// The centre tile of the rectangle.
    pub fn center(&self) -> (r: (i32, i32))
        requires
            0 <= self.x1 + self.x2 <= 1_000_000,
            0 <= self.y1 + self.y2 <= 1_000_000,
        ensures
            r.0 == (self.x1 + self.x2) / 2,
            r.1 == (self.y1 + self.y2) / 2,
    {
        ((self.x1 + self.x2) / 2, (self.y1 + self.y2) / 2)
    }
}

/// Whether two points lie within a Euclidean distance bound of each other:
/// exact, by comparing squared distances in integers.
pub open spec fn spec_within_distance(
    x1: int,
    y1: int,
    x2: int,
    y2: int,
    bound: int,
) -> bool {
    (x2 - x1) * (x2 - x1) + (y2 - y1) * (y2 - y1) <= bound * bound
}

/// Whether the Euclidean distance between two points is at most `bound`.
pub fn within_distance(x1: i32, y1: i32, x2: i32, y2: i32, bound: i32) -> (r: bool)
    requires
        bound >= 0,
    ensures
        r == spec_within_distance(x1 as int, y1 as int, x2 as int, y2 as int, bound as int),
{
    let dx: i128 = (x2 as i128) - (x1 as i128);
    let dy: i128 = (y2 as i128) - (y1 as i128);
    let b: i128 = bound as i128;
    proof {
        assert(dx * dx <= 0x100000000i128 * 0x100000000 && dx * dx >= 0)
            by (nonlinear_arith)
            requires
                -0x100000000 <= dx <= 0x100000000,
        ;
        assert(dy * dy <= 0x100000000i128 * 0x100000000 && dy * dy >= 0)
            by (nonlinear_arith)
            requires
                -0x100000000 <= dy <= 0x100000000,
        ;
        assert(b * b <= 0x100000000i128 * 0x100000000 && b * b >= 0)
            by (nonlinear_arith)
            requires
                0 <= b <= 0x100000000,
        ;
    }
    dx * dx + dy * dy <= b * b
}

/// The rasterized line the rltk collaborator draws between two points.
pub uninterp spec fn line_of(sx: int, sy: int, ex: int, ey: int) -> Seq<Position>;

/// Relies on rltk::line2d with the Bresenham algorithm: the points of a
/// raster line, beginning at the start point and ending at the end point.
/// The coordinate bound keeps the algorithm's internal differences inside
/// the machine integer range.
#[verifier::external_body]
pub fn line_points(sx: i32, sy: i32, ex: i32, ey: i32) -> (r: Vec<Position>)
    requires
        -100_000 <= sx <= 100_000,
        -100_000 <= sy <= 100_000,
        -100_000 <= ex <= 100_000,
        -100_000 <= ey <= 100_000,
    ensures
        r@ == line_of(sx as int, sy as int, ex as int, ey as int),
        r@.len() >= 1,
        r@[0] == (Position { x: sx, y: sy }),
        r@[r@.len() - 1] == (Position { x: ex, y: ey }),
{
    rltk::line2d(rltk::LineAlg::Bresenham, rltk::Point::new(sx, sy), rltk::Point::new(ex, ey))
        .iter()
        .map(|p| Position { x: p.x, y: p.y })
        .collect()
}

} // verus!
