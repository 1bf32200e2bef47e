//! Axis-aligned bounding boxes, bounding circles, and their intersection
//! test.  Pure functions on fixed-point coordinates, no state.
use vstd::prelude::*;

use crate::clamp_i;

verus! {

/// Bound on the coordinates the intersection test accepts.  Squares of
/// differences of such coordinates still fit comfortably in an `i128`.
pub const COORD_LIMIT: i64 = 4_000_000_000_000_000_000;

/// An axis-aligned bounding box given by its two extreme corners,
/// in nano-units.
#[derive(Clone, Copy, Debug, PartialEq, Eq, Structural)]
pub struct Aabb {
    pub min_x: i64,
    pub min_y: i64,
    pub max_x: i64,
    pub max_y: i64,
}

/// A bounding circle given by its center and radius, in nano-units.
#[derive(Clone, Copy, Debug, PartialEq, Eq, Structural)]
pub struct Circle {
    pub x: i64,
    pub y: i64,
    pub radius: i64,
}

impl Aabb {
    /// A box is well formed when its corners are ordered and lie within
    /// the coordinate bound.
    pub open spec fn wf(self) -> bool {
        &&& self.min_x <= self.max_x
        &&& self.min_y <= self.max_y
        &&& -COORD_LIMIT <= self.min_x
        &&& self.max_x <= COORD_LIMIT
        &&& -COORD_LIMIT <= self.min_y
        &&& self.max_y <= COORD_LIMIT
    }
}

impl Circle {
    /// A circle is well formed when its radius is non-negative and its
    /// center and radius lie within the coordinate bound.
    pub open spec fn wf(self) -> bool {
        &&& 0 <= self.radius <= COORD_LIMIT
        &&& -COORD_LIMIT <= self.x <= COORD_LIMIT
        &&& -COORD_LIMIT <= self.y <= COORD_LIMIT
    }
}

/// Whether the circle with center `(cx, cy)` and radius `r` meets the box
/// `[lo_x, hi_x] x [lo_y, hi_y]`: the center is clamped into the box and
/// the squared distance to the clamped point is compared to `r` squared.
pub open spec fn circle_box_hit(
    cx: int,
    cy: int,
    r: int,
    lo_x: int,
    lo_y: int,
    hi_x: int,
    hi_y: int,
) -> bool {
    let px = clamp_i(cx, lo_x, hi_x);
    let py = clamp_i(cy, lo_y, hi_y);
    (cx - px) * (cx - px) + (cy - py) * (cy - py) <= r * r
}

/// `circle_box_hit` applied to a `Circle` and an `Aabb`.
pub open spec fn circle_aabb_intersect(c: Circle, b: Aabb) -> bool {
    circle_box_hit(
        c.x as int,
        c.y as int,
        c.radius as int,
        b.min_x as int,
        b.min_y as int,
        b.max_x as int,
        b.max_y as int,
    )
}

/// Builds the box with the given center and half extents.
pub fn make_aabb(center_x: i64, center_y: i64, half_x: i64, half_y: i64) -> (b: Aabb)
    requires
        0 <= half_x,
        0 <= half_y,
        -COORD_LIMIT <= center_x - half_x,
        center_x + half_x <= COORD_LIMIT,
        -COORD_LIMIT <= center_y - half_y,
        center_y + half_y <= COORD_LIMIT,
    ensures
        b.min_x == center_x - half_x,
        b.min_y == center_y - half_y,
        b.max_x == center_x + half_x,
        b.max_y == center_y + half_y,
        b.wf(),
{
    Aabb {
        min_x: center_x - half_x,
        min_y: center_y - half_y,
        max_x: center_x + half_x,
        max_y: center_y + half_y,
    }
}

/// Builds the circle with the given center and radius.
pub fn make_circle(center_x: i64, center_y: i64, radius: i64) -> (c: Circle)
    requires
        0 <= radius <= COORD_LIMIT,
        -COORD_LIMIT <= center_x <= COORD_LIMIT,
        -COORD_LIMIT <= center_y <= COORD_LIMIT,
    ensures
        c.x == center_x,
        c.y == center_y,
        c.radius == radius,
        c.wf(),
{
    Circle { x: center_x, y: center_y, radius }
}

/// The standard circle-versus-box test: true exactly when the circle and
/// the box share a point.
pub fn intersects(c: &Circle, b: &Aabb) -> (hit: bool)
    requires
        c.wf(),
        b.wf(),
    ensures
        hit == circle_aabb_intersect(*c, *b),
{
    let px: i64 = if c.x < b.min_x {
        b.min_x
    } else if c.x > b.max_x {
        b.max_x
    } else {
        c.x
    };
    let py: i64 = if c.y < b.min_y {
        b.min_y
    } else if c.y > b.max_y {
        b.max_y
    } else {
        c.y
    };
    let dx: i128 = (c.x as i128) - (px as i128);
    let dy: i128 = (c.y as i128) - (py as i128);
    let rr: i128 = c.radius as i128;
    proof {
        assert(-2 * COORD_LIMIT <= dx <= 2 * COORD_LIMIT);
        assert(dx * dx <= 4 * (COORD_LIMIT as int) * (COORD_LIMIT as int)) by (nonlinear_arith)
            requires
                -2 * COORD_LIMIT <= dx <= 2 * COORD_LIMIT,
        ;
        assert(dy * dy <= 4 * (COORD_LIMIT as int) * (COORD_LIMIT as int)) by (nonlinear_arith)
            requires
                -2 * COORD_LIMIT <= dy <= 2 * COORD_LIMIT,
        ;
        assert(0 <= dx * dx) by (nonlinear_arith);
        assert(0 <= dy * dy) by (nonlinear_arith);
        assert(rr * rr <= (COORD_LIMIT as int) * (COORD_LIMIT as int)) by (nonlinear_arith)
            requires
                0 <= rr <= COORD_LIMIT,
        ;
        assert(0 <= rr * rr) by (nonlinear_arith);
    }
    dx * dx + dy * dy <= rr * rr
}

/// Mirroring a circle-versus-box configuration across any horizontal axis
/// `y = m` leaves the outcome of the intersection test unchanged.  An
/// obstacle box built for the flipped orientation is the mirror image of
/// the box built for the unflipped one, so the collision test treats both
/// orientations identically.
pub proof fn lemma_intersects_mirror(
    cx: int,
    cy: int,
    r: int,
    lo_x: int,
    lo_y: int,
    hi_x: int,
    hi_y: int,
    m: int,
)
    requires
        lo_y <= hi_y,
    ensures
        circle_box_hit(cx, cy, r, lo_x, lo_y, hi_x, hi_y) == circle_box_hit(
            cx,
            2 * m - cy,
            r,
            lo_x,
            2 * m - hi_y,
            hi_x,
            2 * m - lo_y,
        ),
{
    let py = clamp_i(cy, lo_y, hi_y);
    let qy = clamp_i(2 * m - cy, 2 * m - hi_y, 2 * m - lo_y);
    assert(qy == 2 * m - py);
    let dy = cy - py;
    let ey = (2 * m - cy) - qy;
    assert(ey == -dy);
    assert(ey * ey == dy * dy) by (nonlinear_arith)
        requires
            ey == -dy,
    ;
}

} // verus!
