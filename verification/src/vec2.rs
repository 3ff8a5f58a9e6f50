//! Two-dimensional vectors in milli-unit fixed point.

use vstd::prelude::*;

use crate::fixed;
use crate::fixed::{COORD_LIMIT, SCALE};

verus! {

/// A point or direction of the plane, in milli-units.
#[derive(Clone, Copy, PartialEq, Eq, Structural, Debug)]
pub struct Vec2 {
    pub x: i64,
    pub y: i64,
}

impl Vec2 {
    /// Both components are storable scalars.
    pub open spec fn in_range(self) -> bool {
        fixed::in_range(self.x as int) && fixed::in_range(self.y as int)
    }

    /// Both components lie within one world unit of zero, as a direction
    /// taken from the unit square does.
    pub open spec fn unit_box(self) -> bool {
        -(SCALE as int) <= self.x as int <= SCALE as int
            && -(SCALE as int) <= self.y as int <= SCALE as int
    }

    pub open spec fn spec_zero() -> Vec2 {
        Vec2 { x: 0, y: 0 }
    }

    pub fn zero() -> (r: Vec2)
        ensures
            r == Self::spec_zero(),
    {
        Vec2 { x: 0, y: 0 }
    }

    pub open spec fn spec_add_sat(self, o: Vec2) -> Vec2 {
        Vec2 {
            x: fixed::sat_spec(self.x + o.x) as i64,
            y: fixed::sat_spec(self.y + o.y) as i64,
        }
    }

    /// Componentwise sum, saturated into the storable range.
    pub fn add_sat(self, o: Vec2) -> (r: Vec2)
        ensures
            r == self.spec_add_sat(o),
            r.in_range(),
    {
        Vec2 { x: fixed::sat_add(self.x, o.x), y: fixed::sat_add(self.y, o.y) }
    }

    pub open spec fn spec_sub_sat(self, o: Vec2) -> Vec2 {
        Vec2 {
            x: fixed::sat_spec(self.x - o.x) as i64,
            y: fixed::sat_spec(self.y - o.y) as i64,
        }
    }

    /// Componentwise difference, saturated into the storable range.
    pub fn sub_sat(self, o: Vec2) -> (r: Vec2)
        ensures
            r == self.spec_sub_sat(o),
            r.in_range(),
    {
        Vec2 { x: fixed::sat_sub(self.x, o.x), y: fixed::sat_sub(self.y, o.y) }
    }

    pub open spec fn spec_scale_milli(self, k: int) -> Vec2 {
        Vec2 {
            x: fixed::sat_spec(fixed::mul_milli_spec(self.x as int, k)) as i64,
            y: fixed::sat_spec(fixed::mul_milli_spec(self.y as int, k)) as i64,
        }
    }

    /// Both components multiplied by the milli-unit scalar `k`.
    pub fn scale_milli(self, k: i64) -> (r: Vec2)
        requires
            self.in_range(),
            fixed::in_range(k as int),
        ensures
            r == self.spec_scale_milli(k as int),
            r.in_range(),
    {
        Vec2 { x: fixed::mul_milli(self.x, k), y: fixed::mul_milli(self.y, k) }
    }

    /// The squared length.
    pub open spec fn len2(self) -> int {
        (self.x as int) * (self.x as int) + (self.y as int) * (self.y as int)
    }

    /// The squared length, wide enough never to overflow.
    pub fn len2_i128(self) -> (n: i128)
        requires
            self.in_range(),
        ensures
            n == self.len2(),
            0 <= n <= 2 * (COORD_LIMIT as int) * (COORD_LIMIT as int),
    {
        proof {
            assert(0 <= (self.x as int) * (self.x as int)
                <= (COORD_LIMIT as int) * (COORD_LIMIT as int)
                && 0 <= (self.y as int) * (self.y as int)
                    <= (COORD_LIMIT as int) * (COORD_LIMIT as int)) by (nonlinear_arith)
                requires
                    -(COORD_LIMIT as int) <= self.x as int <= COORD_LIMIT as int,
                    -(COORD_LIMIT as int) <= self.y as int <= COORD_LIMIT as int,
            ;
        }
        (self.x as i128) * (self.x as i128) + (self.y as i128) * (self.y as i128)
    }

    /// The length, rounded down to a whole milli-unit.
    pub open spec fn spec_length(self) -> int {
        fixed::isqrt_int(self.len2() as nat) as int
    }

    /// The length, rounded down to a whole milli-unit.
    pub fn length(self) -> (l: u64)
        requires
            self.in_range(),
        ensures
            l == self.spec_length(),
    {
        let n2 = self.len2_i128();
        isqrt_of_len2(n2)
    }

    /// The direction of `self` as a vector of length one world unit (to
    /// within a tenth of a percent — see `lemma_normalize_near_unit`), or
    /// zero when `self` is zero. The length is taken at thousandth-of-a-
    /// milli-unit precision, so even the smallest representable vectors
    /// normalize accurately.
    pub open spec fn spec_normalize_or_zero(self) -> Vec2 {
        if self.x == 0 && self.y == 0 {
            Self::spec_zero()
        } else {
            let l = fixed::isqrt_int((self.len2() * 1_000_000) as nat) as int;
            Vec2 {
                x: fixed::div_trunc((self.x as int) * 1_000_000, l) as i64,
                y: fixed::div_trunc((self.y as int) * 1_000_000, l) as i64,
            }
        }
    }

    /// The direction of `self`, or zero for the zero vector — a degenerate
    /// direction never becomes an undefined value.
    pub fn normalize_or_zero(self) -> (r: Vec2)
        requires
            self.in_range(),
        ensures
            r == self.spec_normalize_or_zero(),
            r.unit_box(),
            !(self.x == 0 && self.y == 0) ==> r.len2() <= 1_002_001,
    {
        if self.x == 0 && self.y == 0 {
            return Vec2::zero();
        }
        let n2 = self.len2_i128();
        proof {
            assert(self.len2() >= 1) by (nonlinear_arith)
                requires
                    self.len2() == (self.x as int) * (self.x as int) + (self.y as int) * (
                    self.y as int),
                    !(self.x == 0 && self.y == 0),
            ;
        }
        let wide: i128 = n2 * 1_000_000;
        proof {
            assert(wide < 0x40000000000000000000000000000000);
        }
        let l = fixed::isqrt_u128(wide as u128);
        proof {
            self.lemma_scaled_length_facts();
            self.lemma_normalize_bounds();
            self.lemma_normalize_near_unit();
        }
        let rx = scaled_component(self.x, l);
        let ry = scaled_component(self.y, l);
        Vec2 { x: rx, y: ry }
    }

    /// Facts about the scaled length `isqrt(len2 * 10^6)` of a nonzero
    /// storable vector: it is at least a whole unit's worth of precision,
    /// bounded above, and dominates each component taken at the same
    /// precision.
    proof fn lemma_scaled_length_facts(self)
        requires
            self.in_range(),
            self.len2() >= 1,
        ensures
            ({
                let l = fixed::isqrt_int((self.len2() * 1_000_000) as nat) as int;
                &&& 1000 <= l <= 1_500_000_000_000_000
                &&& -l <= (self.x as int) * 1000 <= l
                &&& -l <= (self.y as int) * 1000 <= l
            }),
    {
        self.lemma_len_bounds();
        let n = self.len2() * 1_000_000;
        fixed::lemma_isqrt_bounds(n as nat);
        let l = fixed::isqrt_int(n as nat) as int;
        assert(1000 <= l <= 1_500_000_000_000_000 && -l <= (self.x as int) * 1000 <= l && -l <= (
        self.y as int) * 1000 <= l) by (nonlinear_arith)
            requires
                l >= 0,
                l * l <= n,
                n < (l + 1) * (l + 1),
                n == self.len2() * 1_000_000,
                1 <= self.len2() <= 2 * (COORD_LIMIT as int) * (COORD_LIMIT as int),
                self.len2() == (self.x as int) * (self.x as int) + (self.y as int) * (
                self.y as int),
                COORD_LIMIT as int == 1_000_000_000_000,
        ;
    }

    /// A normalized vector lies in the unit box.
    pub proof fn lemma_normalize_bounds(self)
        requires
            self.in_range(),
        ensures
            self.spec_normalize_or_zero().unit_box(),
            self.spec_normalize_or_zero().in_range(),
    {
        if self.x == 0 && self.y == 0 {
        } else {
            assert(self.len2() >= 1) by (nonlinear_arith)
                requires
                    self.len2() == (self.x as int) * (self.x as int) + (self.y as int) * (
                    self.y as int),
                    !(self.x == 0 && self.y == 0),
            ;
            self.lemma_scaled_length_facts();
            let l = fixed::isqrt_int((self.len2() * 1_000_000) as nat) as int;
            assert(-(1000 * l) <= (self.x as int) * 1_000_000 <= 1000 * l) by (nonlinear_arith)
                requires
                    -l <= (self.x as int) * 1000 <= l,
                    l >= 0,
            ;
            assert(-(1000 * l) <= (self.y as int) * 1_000_000 <= 1000 * l) by (nonlinear_arith)
                requires
                    -l <= (self.y as int) * 1000 <= l,
                    l >= 0,
            ;
            assert(1000 * l == l * 1000) by (nonlinear_arith);
            fixed::lemma_div_trunc_ratio((self.x as int) * 1_000_000, l, 1000);
            fixed::lemma_div_trunc_ratio((self.y as int) * 1_000_000, l, 1000);
        }
    }

    /// Normalizing a nonzero vector comes out within a tenth of a percent
    /// of unit length: the squared length of the result is at most
    /// 1_002_001, against the exact 1_000_000.
    pub proof fn lemma_normalize_near_unit(self)
        requires
            self.in_range(),
            !(self.x == 0 && self.y == 0),
        ensures
            self.spec_normalize_or_zero().len2() <= 1_002_001,
    {
        assert(self.len2() >= 1) by (nonlinear_arith)
            requires
                self.len2() == (self.x as int) * (self.x as int) + (self.y as int) * (
                self.y as int),
                !(self.x == 0 && self.y == 0),
        ;
        self.lemma_scaled_length_facts();
        self.lemma_normalize_bounds();
        let n = self.len2() * 1_000_000;
        fixed::lemma_isqrt_bounds(n as nat);
        let l = fixed::isqrt_int(n as nat) as int;
        let ax: int = if self.x >= 0 {
            (self.x as int) * 1_000_000
        } else {
            -((self.x as int) * 1_000_000)
        };
        let ay: int = if self.y >= 0 {
            (self.y as int) * 1_000_000
        } else {
            -((self.y as int) * 1_000_000)
        };
        let qa = ax / l;
        let qb = ay / l;
        let r = self.spec_normalize_or_zero();
        assert(r.x as int == fixed::div_trunc((self.x as int) * 1_000_000, l));
        assert(r.y as int == fixed::div_trunc((self.y as int) * 1_000_000, l));
        assert((r.x as int) * (r.x as int) == qa * qa && (r.y as int) * (r.y as int) == qb * qb)
            by (nonlinear_arith)
            requires
                r.x as int == if ax == (self.x as int) * 1_000_000 {
                    qa
                } else {
                    -qa
                },
                r.y as int == if ay == (self.y as int) * 1_000_000 {
                    qb
                } else {
                    -qb
                },
        ;
        vstd::arithmetic::div_mod::lemma_fundamental_div_mod(ax, l);
        vstd::arithmetic::div_mod::lemma_mod_division_less_than_divisor(ax, l);
        vstd::arithmetic::div_mod::lemma_fundamental_div_mod(ay, l);
        vstd::arithmetic::div_mod::lemma_mod_division_less_than_divisor(ay, l);
        assert(ax * ax + ay * ay == (self.len2() * 1_000_000) * 1_000_000) by (nonlinear_arith)
            requires
                ax == if self.x >= 0 {
                    (self.x as int) * 1_000_000
                } else {
                    -((self.x as int) * 1_000_000)
                },
                ay == if self.y >= 0 {
                    (self.y as int) * 1_000_000
                } else {
                    -((self.y as int) * 1_000_000)
                },
                self.len2() == (self.x as int) * (self.x as int) + (self.y as int) * (
                self.y as int),
        ;
        assert(self.len2() * 1_000_000 <= l * l + 2 * l) by (nonlinear_arith)
            requires
                n < (l + 1) * (l + 1),
                n == self.len2() * 1_000_000,
                l >= 0,
        ;
        assert(qa * qa + qb * qb <= 1_002_001) by (nonlinear_arith)
            requires
                l >= 1000,
                qa >= 0,
                qb >= 0,
                l * qa <= ax,
                l * qb <= ay,
                ax * ax + ay * ay == (self.len2() * 1_000_000) * 1_000_000,
                ax == if self.x >= 0 {
                    (self.x as int) * 1_000_000
                } else {
                    -((self.x as int) * 1_000_000)
                },
                ay == if self.y >= 0 {
                    (self.y as int) * 1_000_000
                } else {
                    -((self.y as int) * 1_000_000)
                },
                self.len2() * 1_000_000 <= l * l + 2 * l,
                ax >= 0,
                ay >= 0,
        ;
    }

    /// A storable vector's squared length and length are bounded.
    pub proof fn lemma_len_bounds(self)
        requires
            self.in_range(),
        ensures
            0 <= self.len2() <= 2 * (COORD_LIMIT as int) * (COORD_LIMIT as int),
            0 <= self.spec_length() <= 2 * (COORD_LIMIT as int),
    {
        assert(0 <= self.len2() <= 2 * (COORD_LIMIT as int) * (COORD_LIMIT as int))
            by (nonlinear_arith)
            requires
                -(COORD_LIMIT as int) <= self.x as int <= COORD_LIMIT as int,
                -(COORD_LIMIT as int) <= self.y as int <= COORD_LIMIT as int,
                self.len2() == (self.x as int) * (self.x as int) + (self.y as int) * (
                self.y as int),
        ;
        fixed::lemma_isqrt_bounds(self.len2() as nat);
        assert(self.spec_length() <= 2 * (COORD_LIMIT as int)) by (nonlinear_arith)
            requires
                self.spec_length() >= 0,
                self.spec_length() * self.spec_length() <= self.len2(),
                self.len2() <= 2 * (COORD_LIMIT as int) * (COORD_LIMIT as int),
                COORD_LIMIT as int >= 1,
        ;
    }

}

/// The integer square root of a squared length.
fn isqrt_of_len2(n2: i128) -> (l: u64)
    requires
        0 <= n2 <= 2 * (COORD_LIMIT as int) * (COORD_LIMIT as int),
    ensures
        l as nat == fixed::isqrt_int(n2 as nat),
{
    proof {
        assert(2 * (COORD_LIMIT as int) * (COORD_LIMIT as int)
            < 0x40000000000000000000000000000000);
    }
    fixed::isqrt_u128(n2 as u128)
}

/// One component of a normalized vector: `x * 10^6 / l`, where `l` is the
/// scaled length and dominates the component at the same precision.
fn scaled_component(x: i64, l: u64) -> (r: i64)
    requires
        1000 <= l as int <= 1_500_000_000_000_000,
        -(l as int) <= (x as int) * 1000 <= l as int,
    ensures
        r == fixed::div_trunc((x as int) * 1_000_000, l as int),
        -(SCALE as int) <= r as int <= SCALE as int,
{
    let num: i128 = (x as i128) * 1_000_000;
    proof {
        assert(-((l as int) * 1000) <= (x as int) * 1_000_000 <= (l as int) * 1000)
            by (nonlinear_arith)
            requires
                -(l as int) <= (x as int) * 1000 <= l as int,
                l as int >= 0,
        ;
        fixed::lemma_div_trunc_ratio(num as int, l as int, SCALE as int);
    }
    let q = fixed::div_trunc_i128(num, l as i128);
    q as i64
}

} // verus!
