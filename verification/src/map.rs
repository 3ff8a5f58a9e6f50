//! The arena: its dimensions and the clamp that keeps entities inside it.

use vstd::prelude::*;

use crate::fixed;
use crate::vec2::Vec2;

verus! {

/// Width of the playfield, in milli-units.
pub const MAP_WIDTH: i64 = 1_200_000;

/// Height of the playfield, in milli-units.
pub const MAP_HEIGHT: i64 = 800_000;

/// The playfield dimensions as a vector.
pub fn map_dims() -> (r: Vec2)
    ensures
        r == (Vec2 { x: MAP_WIDTH, y: MAP_HEIGHT }),
{
    Vec2 { x: MAP_WIDTH, y: MAP_HEIGHT }
}

/// The rectangle positions are clamped into. The clamp is asymmetric —
/// tighter on the horizontal axis than the vertical one — so the bounds are
/// configuration, not a formula over one aspect ratio.
#[derive(Clone, Copy, PartialEq, Eq, Structural, Debug)]
pub struct ArenaBounds {
    pub min_x: i64,
    pub max_x: i64,
    pub min_y: i64,
    pub max_y: i64,
}

impl ArenaBounds {
    pub open spec fn wf(self) -> bool {
        self.min_x <= self.max_x && self.min_y <= self.max_y && fixed::in_range(self.min_x as int)
            && fixed::in_range(self.max_x as int) && fixed::in_range(self.min_y as int)
            && fixed::in_range(self.max_y as int)
    }

    pub open spec fn spec_standard() -> ArenaBounds {
        ArenaBounds { min_x: -545_454i64, max_x: 545_454, min_y: -320_000i64, max_y: 347_826 }
    }

    /// The stock bounds: width divided by 2.2 each side, height divided by
    /// 2.5 below and 2.3 above.
    pub fn standard() -> (r: ArenaBounds)
        ensures
            r == ArenaBounds::spec_standard(),
            r.wf(),
    {
        ArenaBounds { min_x: -545_454, max_x: 545_454, min_y: -320_000, max_y: 347_826 }
    }

    /// A position inside the bounds.
    pub open spec fn contains(self, pos: Vec2) -> bool {
        self.min_x <= pos.x <= self.max_x && self.min_y <= pos.y <= self.max_y
    }
}

pub open spec fn spec_clamp_position(bounds: ArenaBounds, pos: Vec2) -> Vec2 {
    Vec2 {
        x: fixed::clamp_spec(pos.x as int, bounds.min_x as int, bounds.max_x as int) as i64,
        y: fixed::clamp_spec(pos.y as int, bounds.min_y as int, bounds.max_y as int) as i64,
    }
}

/// Clamp a position into the arena.
pub fn clamp_position(bounds: &ArenaBounds, pos: &Vec2) -> (r: Vec2)
    requires
        bounds.wf(),
    ensures
        r == spec_clamp_position(*bounds, *pos),
        bounds.contains(r),
        r.in_range(),
{
    Vec2 {
        x: fixed::clamp_i64(pos.x, bounds.min_x, bounds.max_x),
        y: fixed::clamp_i64(pos.y, bounds.min_y, bounds.max_y),
    }
}

/// Marker for the arena's floor object.
#[derive(Clone, Copy, PartialEq, Eq, Structural, Debug)]
pub struct MapFloor {}

/// The floor object the renderer draws under everything: a sprite the size
/// of the playfield.
#[derive(Clone, Copy, PartialEq, Eq, Structural, Debug)]
pub struct MapBundle {
    pub map: MapFloor,
    pub pos: Vec2,
    pub dims: Vec2,
}

impl MapBundle {
    pub fn new(pos: Vec2) -> (r: MapBundle)
        ensures
            r.pos == pos,
            r.dims == (Vec2 { x: MAP_WIDTH, y: MAP_HEIGHT }),
    {
        MapBundle { map: MapFloor {  }, pos, dims: map_dims() }
    }
}

} // verus!
