//! Fixed-point scalar arithmetic.
//!
//! A scalar is an `i64` counting milli-units: the value 1.0 is stored as
//! 1000. Every scalar the simulation stores is kept inside
//! `[-COORD_LIMIT, COORD_LIMIT]` by the saturating operations below, which
//! keeps all intermediate products comfortably inside `i128`.

use vstd::prelude::*;

verus! {

/// How many stored units make one world unit.
pub const SCALE: i64 = 1000;

/// Largest magnitude any stored scalar may take.
pub const COORD_LIMIT: i64 = 1_000_000_000_000;

/// A scalar the simulation may store.
pub open spec fn in_range(v: int) -> bool {
    -COORD_LIMIT <= v <= COORD_LIMIT
}

/// Clamp `v` into `[lo, hi]`.
pub open spec fn clamp_spec(v: int, lo: int, hi: int) -> int {
    if v < lo {
        lo
    } else if v > hi {
        hi
    } else {
        v
    }
}

/// Division rounding toward zero (for a positive divisor).
pub open spec fn div_trunc(a: int, b: int) -> int
    recommends
        b > 0,
{
    if a >= 0 {
        a / b
    } else {
        -((-a) / b)
    }
}

/// Product of two milli-unit scalars, rounded toward zero.
pub open spec fn mul_milli_spec(a: int, b: int) -> int {
    div_trunc(a * b, SCALE as int)
}

/// Saturate a scalar into the storable range.
pub open spec fn sat_spec(v: int) -> int {
    clamp_spec(v, -COORD_LIMIT as int, COORD_LIMIT as int)
}

/// Clamp `v` into `[lo, hi]`.
pub fn clamp_i64(v: i64, lo: i64, hi: i64) -> (r: i64)
    requires
        lo <= hi,
    ensures
        r == clamp_spec(v as int, lo as int, hi as int),
{
    if v < lo {
        lo
    } else if v > hi {
        hi
    } else {
        v
    }
}

/// Division of `i128` values rounding toward zero.
pub fn div_trunc_i128(a: i128, b: i128) -> (r: i128)
    requires
        b > 0,
        a > i128::MIN,
    ensures
        r == div_trunc(a as int, b as int),
{
    if a >= 0 {
        let q: u128 = (a as u128) / (b as u128);
        q as i128
    } else {
        let q: u128 = ((-a) as u128) / (b as u128);
        -(q as i128)
    }
}

/// Sum of two storable scalars, saturated back into range.
pub fn sat_add(a: i64, b: i64) -> (r: i64)
    ensures
        r == sat_spec(a + b),
{
    let wide: i128 = (a as i128) + (b as i128);
    sat_narrow(wide)
}

/// Difference of two storable scalars, saturated back into range.
pub fn sat_sub(a: i64, b: i64) -> (r: i64)
    ensures
        r == sat_spec(a - b),
{
    let wide: i128 = (a as i128) - (b as i128);
    sat_narrow(wide)
}

/// Saturate a wide intermediate into the storable range.
pub fn sat_narrow(wide: i128) -> (r: i64)
    ensures
        r == sat_spec(wide as int),
{
    if wide < -(COORD_LIMIT as i128) {
        -COORD_LIMIT
    } else if wide > COORD_LIMIT as i128 {
        COORD_LIMIT
    } else {
        wide as i64
    }
}

/// Product of two milli-unit scalars, saturated into range.
pub fn mul_milli(a: i64, b: i64) -> (r: i64)
    requires
        in_range(a as int),
        in_range(b as int),
    ensures
        r == sat_spec(mul_milli_spec(a as int, b as int)),
        in_range(r as int),
{
    proof {
        assert(-(COORD_LIMIT as int) * (COORD_LIMIT as int) <= (a as int) * (b as int)
            <= (COORD_LIMIT as int) * (COORD_LIMIT as int)) by (nonlinear_arith)
            requires
                -(COORD_LIMIT as int) <= a as int <= COORD_LIMIT as int,
                -(COORD_LIMIT as int) <= b as int <= COORD_LIMIT as int,
        ;
    }
    let wide: i128 = (a as i128) * (b as i128);
    let q = div_trunc_i128(wide, SCALE as i128);
    proof {
        lemma_div_trunc_bound(wide as int, SCALE as int);
    }
    sat_narrow(q)
}

/// Truncating division shrinks magnitude: `|a / b| <= |a|` for `b >= 1`.
pub proof fn lemma_div_trunc_bound(a: int, b: int)
    requires
        b >= 1,
    ensures
        a >= 0 ==> 0 <= div_trunc(a, b) <= a,
        a < 0 ==> a <= div_trunc(a, b) <= 0,
{
    if a >= 0 {
        vstd::arithmetic::div_mod::lemma_div_nonincreasing(a, b);
        vstd::arithmetic::div_mod::lemma_div_pos_is_pos(a, b);
    } else {
        vstd::arithmetic::div_mod::lemma_div_nonincreasing(-a, b);
        vstd::arithmetic::div_mod::lemma_div_pos_is_pos(-a, b);
    }
}

/// Truncating division by a larger or equal positive divisor of the
/// numerator's magnitude bound: if `|a| <= m * b` then `|a / b| <= m`.
pub proof fn lemma_div_trunc_ratio(a: int, b: int, m: int)
    requires
        b >= 1,
        m >= 0,
        -(m * b) <= a <= m * b,
    ensures
        -m <= div_trunc(a, b) <= m,
{
    assert(m * b == b * m) by (nonlinear_arith);
    if a >= 0 {
        vstd::arithmetic::div_mod::lemma_div_pos_is_pos(a, b);
        vstd::arithmetic::div_mod::lemma_multiply_divide_le(a, b, m);
    } else {
        vstd::arithmetic::div_mod::lemma_div_pos_is_pos(-a, b);
        vstd::arithmetic::div_mod::lemma_multiply_divide_le(-a, b, m);
    }
}

/// The integer square root: the largest `r` with `r * r <= n`.
pub open spec fn isqrt_int(n: nat) -> nat
    decreases n,
{
    if n == 0 {
        0
    } else {
        let r = isqrt_int((n - 1) as nat);
        if (r + 1) * (r + 1) <= n {
            r + 1
        } else {
            r
        }
    }
}

/// `isqrt_int(n)` squares to at most `n`, and is the largest such number.
pub proof fn lemma_isqrt_bounds(n: nat)
    ensures
        isqrt_int(n) * isqrt_int(n) <= n,
        n < (isqrt_int(n) + 1) * (isqrt_int(n) + 1),
    decreases n,
{
    if n == 0 {
        assert(isqrt_int(0) == 0);
        assert(n < (isqrt_int(n) + 1) * (isqrt_int(n) + 1)) by (nonlinear_arith)
            requires
                n == 0,
                isqrt_int(n) == 0nat,
        ;
    } else {
        lemma_isqrt_bounds((n - 1) as nat);
        let r = isqrt_int((n - 1) as nat);
        if (r + 1) * (r + 1) <= n {
            let s: nat = r + 1;
            assert(isqrt_int(n) == s);
            assert(n <= s * s);
            assert(s * s < (s + 1) * (s + 1)) by (nonlinear_arith);
            assert(n < (s + 1) * (s + 1));
        } else {
            assert(isqrt_int(n) == r);
            assert(r * r <= n - 1);
        }
    }
}

/// Any `r` with `r * r <= n < (r + 1) * (r + 1)` is the integer square root.
pub proof fn lemma_isqrt_unique(n: nat, r: nat)
    requires
        r * r <= n,
        n < (r + 1) * (r + 1),
    ensures
        r == isqrt_int(n),
{
    lemma_isqrt_bounds(n);
    let s = isqrt_int(n);
    assert(r == s) by (nonlinear_arith)
        requires
            r * r <= n < (r + 1) * (r + 1),
            s * s <= n < (s + 1) * (s + 1),
    ;
}

/// The integer square root, by bisection.
pub fn isqrt_u128(n: u128) -> (r: u64)
    requires
        n < 0x40000000000000000000000000000000,
    ensures
        r as nat == isqrt_int(n as nat),
{
    let mut lo: u128 = 0;
    let mut hi: u128 = 0x8000000000000000;
    proof {
        assert((hi as int) * (hi as int) == 0x40000000000000000000000000000000);
    }
    while lo + 1 < hi
        invariant
            lo < hi <= 0x8000000000000000,
            (lo as int) * (lo as int) <= n as int,
            (n as int) < (hi as int) * (hi as int),
        decreases hi - lo,
    {
        let mid = lo + (hi - lo) / 2;
        proof {
            assert((mid as int) * (mid as int) <= 0x40000000000000000000000000000000)
                by (nonlinear_arith)
                requires
                    0 <= mid as int <= 0x8000000000000000,
            ;
        }
        if mid * mid <= n {
            lo = mid;
        } else {
            hi = mid;
        }
    }
    proof {
        lemma_isqrt_unique(n as nat, lo as nat);
    }
    lo as u64
}

/// A milli-unit scalar rounded to the nearest whole count, halves away
/// from zero.
pub open spec fn round_milli_spec(v: int) -> int {
    if v >= 0 {
        (v + 500) / (SCALE as int)
    } else {
        -(((-v) + 500) / (SCALE as int))
    }
}

/// Round a milli-unit scalar to the nearest whole count.
pub fn round_milli(v: i64) -> (r: i64)
    requires
        in_range(v as int),
    ensures
        r == round_milli_spec(v as int),
        in_range(r as int),
{
    proof {
        if v >= 0 {
            lemma_div_trunc_ratio(v + 500, SCALE as int, COORD_LIMIT as int);
        } else {
            lemma_div_trunc_ratio(-(v as int) + 500, SCALE as int, COORD_LIMIT as int);
        }
    }
    if v >= 0 {
        (((v as u64) + 500) / 1000) as i64
    } else {
        -(((((-v) as u64) + 500) / 1000) as i64)
    }
}

/// Linear interpolation from `a` to `b` by the milli-unit fraction `t`.
pub open spec fn lerp_spec(a: int, b: int, t: int) -> int {
    sat_spec(a + mul_milli_spec(b - a, t))
}

/// Where `t` sits between `a` and `b`, as a milli-unit fraction.
pub open spec fn lerp_inverse_spec(a: int, b: int, t: int) -> int
    recommends
        a < b,
{
    sat_spec(div_trunc((t - a) * (SCALE as int), b - a))
}

/// Linear interpolation from `a` to `b` by the milli-unit fraction `t`.
pub fn lerp(a: i64, b: i64, t: i64) -> (r: i64)
    requires
        in_range(a as int),
        in_range(b as int),
        in_range(t as int),
    ensures
        r == lerp_spec(a as int, b as int, t as int),
{
    proof {
        assert(-4 * (COORD_LIMIT as int) * (COORD_LIMIT as int)
            <= ((b as int) - (a as int)) * (t as int)
            <= 4 * (COORD_LIMIT as int) * (COORD_LIMIT as int)) by (nonlinear_arith)
            requires
                -2 * (COORD_LIMIT as int) <= (b as int) - (a as int) <= 2 * (COORD_LIMIT as int),
                -(COORD_LIMIT as int) <= t as int <= COORD_LIMIT as int,
        ;
    }
    let wide: i128 = ((b as i128) - (a as i128)) * (t as i128);
    let q = div_trunc_i128(wide, SCALE as i128);
    proof {
        lemma_div_trunc_bound(wide as int, SCALE as int);
    }
    sat_narrow((a as i128) + q)
}

/// Where `t` sits between `a` and `b`, as a milli-unit fraction.
pub fn lerp_inverse(a: i64, b: i64, t: i64) -> (r: i64)
    requires
        a < b,
        in_range(a as int),
        in_range(b as int),
        in_range(t as int),
    ensures
        r == lerp_inverse_spec(a as int, b as int, t as int),
{
    let num: i128 = ((t as i128) - (a as i128)) * (SCALE as i128);
    let q = div_trunc_i128(num, (b as i128) - (a as i128));
    proof {
        lemma_div_trunc_bound(num as int, (b as int) - (a as int));
    }
    sat_narrow(q)
}

/// Depth used by the renderer for an object at height `y`: high on the
/// screen means far away.
pub open spec fn z_from_y_spec(y: int) -> int {
    lerp_spec(900_000, 100_000, lerp_inverse_spec(-2_500_000, 2_500_000, y))
}

/// Depth used by the renderer for an object at height `y`.
pub fn z_from_y(y: i64) -> (r: i64)
    requires
        in_range(y as int),
    ensures
        r == z_from_y_spec(y as int),
{
    let t = lerp_inverse(-2_500_000, 2_500_000, y);
    lerp(900_000, 100_000, t)
}

} // verus!
