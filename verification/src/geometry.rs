//! Fixed-point 2D points and the bounding-volume intersection tests used by
//! the collision systems: axis-aligned box against circle, as the engine's
//! bounding volumes do it (closest point on the box, then a squared-distance
//! comparison).

use vstd::prelude::*;

verus! {

/// Largest magnitude a world coordinate may have. Keeping every coordinate
/// within this bound keeps all squared distances inside `i64`.
pub const MAX_COORD: i64 = 500_000_000;

/// A 2D point or extent in fixed-point world coordinates.
#[derive(Clone, Copy, Debug, PartialEq, Eq, Structural)]
pub struct Point {
    pub x: i64,
    pub y: i64,
}

impl Point {
    /// Both coordinates lie within the world bound.
    pub open spec fn in_bounds(self) -> bool {
        -MAX_COORD <= self.x <= MAX_COORD && -MAX_COORD <= self.y <= MAX_COORD
    }

    /// Both coordinates are non-negative and within the world bound
    /// (the shape of a half-extent or radius).
    pub open spec fn is_extent(self) -> bool {
        0 <= self.x <= MAX_COORD && 0 <= self.y <= MAX_COORD
    }
}

/// `v` clamped into `[lo, hi]`.
pub open spec fn spec_clamp(v: int, lo: int, hi: int) -> int {
    if v < lo {
        lo
    } else if v > hi {
        hi
    } else {
        v
    }
}

/// `v` clamped into the world coordinate bound.
pub open spec fn spec_clamp_coord(v: int) -> int {
    spec_clamp(v, -MAX_COORD as int, MAX_COORD as int)
}

/// Whether the axis-aligned box centered at `box_center` with half-extents
/// `box_half` touches the circle at `circle_center` with radius `radius`:
/// the point of the box closest to the circle's center lies at most `radius`
/// away from it.
pub open spec fn spec_box_circle_intersect(
    box_center: Point,
    box_half: Point,
    circle_center: Point,
    radius: int,
) -> bool {
    let nx = spec_clamp(
        circle_center.x as int,
        box_center.x - box_half.x,
        box_center.x + box_half.x,
    );
    let ny = spec_clamp(
        circle_center.y as int,
        box_center.y - box_half.y,
        box_center.y + box_half.y,
    );
    let dx = circle_center.x - nx;
    let dy = circle_center.y - ny;
    dx * dx + dy * dy <= radius * radius
}

/// The product of two values each bounded by `b` in magnitude is bounded by
/// `b * b`.
proof fn lemma_square_bound(v: int, b: int)
    requires
        0 <= b,
        -b <= v <= b,
    ensures
        v * v <= b * b,
        0 <= v * v,
    {
    assert(v * v <= b * b && 0 <= v * v) by (nonlinear_arith)
        requires
            0 <= b,
            -b <= v <= b,
    ;
}

/// `v` clamped into `[lo, hi]`.
pub fn clamp_i64(v: i64, lo: i64, hi: i64) -> (r: i64)
    requires
        lo <= hi,
    ensures
        r == spec_clamp(v as int, lo as int, hi as int),
{
    if v < lo {
        lo
    } else if v > hi {
        hi
    } else {
        v
    }
}

/// Executable box-against-circle test; returns exactly what
/// `spec_box_circle_intersect` states.
pub fn box_circle_intersect(
    box_center: Point,
    box_half: Point,
    circle_center: Point,
    radius: i64,
) -> (r: bool)
    requires
        box_center.in_bounds(),
        box_half.is_extent(),
        circle_center.in_bounds(),
        0 <= radius <= MAX_COORD,
    ensures
        r == spec_box_circle_intersect(box_center, box_half, circle_center, radius as int),
{
    let min_x = box_center.x - box_half.x;
    let max_x = box_center.x + box_half.x;
    let min_y = box_center.y - box_half.y;
    let max_y = box_center.y + box_half.y;
    let nx = clamp_i64(circle_center.x, min_x, max_x);
    let ny = clamp_i64(circle_center.y, min_y, max_y);
    let dx = circle_center.x - nx;
    let dy = circle_center.y - ny;
    proof {
        lemma_square_bound(dx as int, 3 * MAX_COORD as int);
        lemma_square_bound(dy as int, 3 * MAX_COORD as int);
        lemma_square_bound(radius as int, MAX_COORD as int);
    }
    dx * dx + dy * dy <= radius * radius
}

} // verus!
