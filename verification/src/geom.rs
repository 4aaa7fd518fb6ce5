//! Plane geometry over micro-unit coordinates: points and squared distance.

use vstd::prelude::*;

verus! {

/// Largest coordinate magnitude a vehicle may reach: the world is a finite
/// square and integration saturates at its edge.
pub const POS_LIMIT: i64 = 100_000_000_000;

/// Largest coordinate magnitude a stimulus source may reach: relocation lands
/// at most `RELOCATE_RANGE` outside a vehicle's own range.
pub const LIGHT_POS_LIMIT: i64 = 101_000_000_000;

/// Coordinate magnitude up to which `distance_squared` is overflow-free; all
/// world coordinates stay well inside it.
pub const COORD_ABS_MAX: i64 = 200_000_000_000;

/// A point of the plane, in micro-units.
#[derive(Clone, Copy, PartialEq, Eq, Structural, Debug)]
pub struct Point {
    pub x: i64,
    pub y: i64,
}

/// Squared Euclidean distance between `(ax, ay)` and `(bx, by)`.
pub open spec fn dist_sq(ax: int, ay: int, bx: int, by: int) -> int {
    (ax - bx) * (ax - bx) + (ay - by) * (ay - by)
}

/// A squared distance is never negative.
pub proof fn lemma_dist_sq_nonneg(ax: int, ay: int, bx: int, by: int)
    by (nonlinear_arith)
    ensures
        dist_sq(ax, ay, bx, by) >= 0,
{
}

/// Exact squared distance between two in-range points.
pub fn distance_squared(a: Point, b: Point) -> (d: i128)
    requires
        -COORD_ABS_MAX <= a.x <= COORD_ABS_MAX,
        -COORD_ABS_MAX <= a.y <= COORD_ABS_MAX,
        -COORD_ABS_MAX <= b.x <= COORD_ABS_MAX,
        -COORD_ABS_MAX <= b.y <= COORD_ABS_MAX,
    ensures
        d as int == dist_sq(a.x as int, a.y as int, b.x as int, b.y as int),
        d >= 0,
{
    let dx: i128 = a.x as i128 - b.x as i128;
    let dy: i128 = a.y as i128 - b.y as i128;
    proof {
        assert(dx * dx == (a.x - b.x) * (a.x - b.x) && 0 <= dx * dx <= 0x1_0000_0000_0000_0000_0000_0000i128)
            by (nonlinear_arith)
            requires
                dx == a.x - b.x,
                -400_000_000_000 <= dx <= 400_000_000_000;
        assert(dy * dy == (a.y - b.y) * (a.y - b.y) && 0 <= dy * dy <= 0x1_0000_0000_0000_0000_0000_0000i128)
            by (nonlinear_arith)
            requires
                dy == a.y - b.y,
                -400_000_000_000 <= dy <= 400_000_000_000;
    }
    dx * dx + dy * dy
}

} // verus!
