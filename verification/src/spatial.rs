//! The spatial query the systems rely on: a pairwise circle-overlap test.
//! Systems answer "what overlaps this entity?" by testing every candidate
//! exhaustively; no broad phase is needed at the entity counts involved.

use vstd::prelude::*;

use crate::fixed::COORD_LIMIT;
use crate::vec2::Vec2;

verus! {

/// Two circles overlap when the squared distance of their centres is at
/// most the square of the sum of their radii.
pub open spec fn spec_circles_overlap(p1: Vec2, r1: int, p2: Vec2, r2: int) -> bool {
    let dx = p1.x - p2.x;
    let dy = p1.y - p2.y;
    dx * dx + dy * dy <= (r1 + r2) * (r1 + r2)
}

/// Whether the circle of radius `r1` at `p1` touches the one of radius
/// `r2` at `p2`.
pub fn circles_overlap(p1: Vec2, r1: i64, p2: Vec2, r2: i64) -> (b: bool)
    requires
        p1.in_range(),
        p2.in_range(),
        0 <= r1 <= COORD_LIMIT,
        0 <= r2 <= COORD_LIMIT,
    ensures
        b == spec_circles_overlap(p1, r1 as int, p2, r2 as int),
{
    let dx: i128 = (p1.x as i128) - (p2.x as i128);
    let dy: i128 = (p1.y as i128) - (p2.y as i128);
    let rr: i128 = (r1 as i128) + (r2 as i128);
    proof {
        let lim4 = 4 * (COORD_LIMIT as int) * (COORD_LIMIT as int);
        assert(0 <= dx * dx <= lim4 && 0 <= dy * dy <= lim4 && 0 <= rr * rr <= lim4)
            by (nonlinear_arith)
            requires
                -2 * (COORD_LIMIT as int) <= dx as int <= 2 * (COORD_LIMIT as int),
                -2 * (COORD_LIMIT as int) <= dy as int <= 2 * (COORD_LIMIT as int),
                0 <= rr as int <= 2 * (COORD_LIMIT as int),
                lim4 == 4 * (COORD_LIMIT as int) * (COORD_LIMIT as int),
        ;
    }
    dx * dx + dy * dy <= rr * rr
}

} // verus!
