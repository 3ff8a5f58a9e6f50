//! The data every drawable, collidable entity carries: its drawn size, its
//! collider and its position. The renderer reads it; the simulation's own
//! overlap tests run on the entities' positions and radii.

use vstd::prelude::*;

use crate::fixed;
use crate::vec2::Vec2;

verus! {

/// Drawn size of an entity.
#[derive(Clone, Copy, PartialEq, Eq, Structural, Debug)]
pub struct Dims(pub Vec2);

/// The collision volume an entity presents.
#[derive(Clone, Copy, PartialEq, Eq, Structural, Debug)]
pub enum Collider {
    Ball { radius: i64 },
    CapsuleY { half_height: i64, radius: i64 },
}

/// Size, collider and position of one drawable entity.
#[derive(Clone, Copy, PartialEq, Eq, Structural, Debug)]
pub struct PhysicsSpriteBundle {
    pub dims: Dims,
    pub collider: Collider,
    pub pos: Vec2,
}

/// A size component clamped to be non-negative, then quartered — a negative
/// configured size collapses to zero rather than failing.
pub open spec fn spec_quarter(v: int) -> int {
    fixed::clamp_spec(v, 0, fixed::COORD_LIMIT as int) / 4
}

fn quarter(v: i64) -> (r: i64)
    ensures
        r == spec_quarter(v as int),
        0 <= r <= fixed::COORD_LIMIT,
{
    let c = fixed::clamp_i64(v, 0, fixed::COORD_LIMIT);
    (c as u64 / 4) as i64
}

impl PhysicsSpriteBundle {
    pub open spec fn spec_new(dims: Vec2, pos: Vec2) -> PhysicsSpriteBundle {
        PhysicsSpriteBundle {
            dims: Dims(dims),
            collider: Collider::CapsuleY {
                half_height: spec_quarter(dims.y as int) as i64,
                radius: spec_quarter(dims.x as int) as i64,
            },
            pos,
        }
    }

    /// A capsule-collided sprite of the given size at the given position.
    pub fn new(dims: &Vec2, pos: &Vec2) -> (r: PhysicsSpriteBundle)
        ensures
            r == PhysicsSpriteBundle::spec_new(*dims, *pos),
    {
        PhysicsSpriteBundle {
            dims: Dims(*dims),
            collider: Collider::CapsuleY { half_height: quarter(dims.y), radius: quarter(dims.x) },
            pos: *pos,
        }
    }
}

} // verus!
