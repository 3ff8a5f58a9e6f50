//! The crate's one source of chance. Everything that consumes a random
//! value takes it as a plain argument, so the logic around it is verified
//! for every outcome.

use vstd::prelude::*;

use crate::fixed::SCALE;
use crate::vec2::Vec2;

verus! {

/// Relies on rand's `Rng::gen_range` over a half-open integer range: the
/// sample lies in `[lo, hi)`, and only an empty range panics.
#[verifier::external_body]
pub(crate) fn gen_range_i64(lo: i64, hi: i64) -> (r: i64)
    requires
        lo < hi,
    ensures
        lo <= r < hi,
{
    rand::Rng::gen_range(&mut rand::thread_rng(), lo..hi)
}

/// A point of the half-open unit square, in milli-units.
pub fn rand_pos_vec2() -> (r: Vec2)
    ensures
        0 <= r.x < SCALE,
        0 <= r.y < SCALE,
        r.in_range(),
{
    Vec2 { x: gen_range_i64(0, SCALE), y: gen_range_i64(0, SCALE) }
}

/// A direction: a vector drawn from the square `[-1, 1)^2` and normalized.
/// Sampling the square then normalizing biases the angle toward the
/// diagonals; the reference behaviour is kept deliberately, since it shapes
/// how enemies wander. A zero draw normalizes to the zero vector; any
/// other draw comes out within a tenth of a percent of unit length.
pub fn rand_norm_vec2() -> (r: Vec2)
    ensures
        r.unit_box(),
        exists|v: Vec2| v.unit_box() && r == v.spec_normalize_or_zero(),
        r == Vec2::spec_zero() || r.len2() <= 1_002_001,
{
    let v = Vec2 { x: gen_range_i64(-SCALE, SCALE), y: gen_range_i64(-SCALE, SCALE) };
    let r = v.normalize_or_zero();
    proof {
        assert(v.unit_box() && r == v.spec_normalize_or_zero());
    }
    r
}

} // verus!
