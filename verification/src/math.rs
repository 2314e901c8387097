//! Exact integer arithmetic the simulation is built on: clamping, integer
//! square roots, scaled division along a direction, angle normalisation and
//! a fixed-point sine approximation.

use vstd::prelude::*;
use vstd::arithmetic::div_mod::{
    lemma_div_is_ordered, lemma_div_multiples_vanish, lemma_div_nonincreasing,
    lemma_div_pos_is_pos,
};
use vstd::arithmetic::mul::lemma_mul_inequality;
use crate::constants::{ROT_FULL, SIN_SCALE};

verus! {

/// `v` forced into the interval `[lo, hi]`.
pub open spec fn clamped(v: int, lo: int, hi: int) -> int {
    if v < lo {
        lo
    } else if v > hi {
        hi
    } else {
        v
    }
}

pub fn clamp_i64(v: i64, lo: i64, hi: i64) -> (r: i64)
    requires
        lo <= hi,
    ensures
        r == clamped(v as int, lo as int, hi as int),
{
    if v < lo {
        lo
    } else if v > hi {
        hi
    } else {
        v
    }
}

/// `r` is the integer square root of `n`, rounded down.
pub open spec fn is_sqrt_floor(n: int, r: int) -> bool {
    0 <= r && r * r <= n && n < (r + 1) * (r + 1)
}

/// The integer square root of `n`, rounded down.
pub open spec fn sqrt_floor(n: int) -> int {
    choose|r: int| is_sqrt_floor(n, r)
}

/// Every nonnegative integer has a rounded-down square root.
pub proof fn lemma_sqrt_floor_exists(n: int)
    requires
        n >= 0,
    ensures
        is_sqrt_floor(n, sqrt_floor(n)),
    decreases n,
{
    if n == 0 {
        assert(is_sqrt_floor(0, 0));
    } else {
        lemma_sqrt_floor_exists(n - 1);
        let r = sqrt_floor(n - 1);
        if n == (r + 1) * (r + 1) {
            assert(is_sqrt_floor(n, r + 1)) by (nonlinear_arith)
                requires
                    r >= 0,
                    n == (r + 1) * (r + 1),
            ;
        } else {
            assert(is_sqrt_floor(n, r));
        }
    }
}

/// Any witness of `is_sqrt_floor` is the unique root `sqrt_floor` denotes.
pub proof fn lemma_sqrt_floor_unique(n: int, r: int)
    requires
        is_sqrt_floor(n, r),
    ensures
        sqrt_floor(n) == r,
{
    let s = sqrt_floor(n);
    assert(is_sqrt_floor(n, s));
    if s < r {
        assert((s + 1) * (s + 1) <= r * r) by (nonlinear_arith)
            requires 0 <= s, 0 <= r, s + 1 <= r;
    }
    if r < s {
        assert((r + 1) * (r + 1) <= s * s) by (nonlinear_arith)
            requires 0 <= s, 0 <= r, r + 1 <= s;
    }
}

/// Integer square root of a `u64`, rounded down, by bisection.
pub fn isqrt_u64(n: u64) -> (r: u64)
    ensures
        is_sqrt_floor(n as int, r as int),
        r == sqrt_floor(n as int),
        r < 0x1_0000_0000,
{
    let mut lo: u64 = 0;
    let mut hi: u64 = 0x1_0000_0000;
    assert(n < hi * hi) by (nonlinear_arith)
        requires n <= u64::MAX, hi == 0x1_0000_0000u64;
    while lo + 1 < hi
        invariant
            lo < hi <= 0x1_0000_0000,
            lo * lo <= n,
            n < hi * hi,
        decreases hi - lo,
    {
        let mid = lo + (hi - lo) / 2;
        proof {
            assert((mid as int) * (mid as int) <= 0x1_0000_0000_0000_0000int) by (nonlinear_arith)
                requires
                    mid <= 0x1_0000_0000u64,
            ;
        }
        if (mid as u128) * (mid as u128) <= (n as u128) {
            lo = mid;
        } else {
            hi = mid;
        }
    }
    proof {
        lemma_sqrt_floor_unique(n as int, lo as int);
    }
    lo
}

/// Product scaled down: `a * b / d`, exact in `u64`.
pub fn mul_div_u64(a: u64, b: u64, d: u64) -> (r: u64)
    requires
        d > 0,
        a * b <= u64::MAX,
    ensures
        r == a * b / (d as int),
{
    (a * b) / d
}

/// A step of magnitude `|delta| * num / den` carrying the sign of `delta`:
/// the component, along one axis, of a move of size `num` in the direction
/// of a displacement whose component on that axis is `delta` and whose
/// length is `den`.
pub open spec fn spec_toward(delta: int, num: int, den: int) -> int {
    if delta >= 0 {
        delta * num / den
    } else {
        -((-delta) * num / den)
    }
}

/// The step never exceeds `|delta|` when the move is no longer than the
/// displacement (`num <= den`).
pub proof fn lemma_toward_le_delta(delta: int, num: int, den: int)
    requires
        den > 0,
        0 <= num <= den,
    ensures
        delta >= 0 ==> 0 <= spec_toward(delta, num, den) <= delta,
        delta < 0 ==> delta <= spec_toward(delta, num, den) <= 0,
{
    let m = if delta >= 0 { delta } else { -delta };
    lemma_mul_inequality(num, den, m);
    lemma_div_is_ordered(m * num, m * den, den);
    lemma_div_multiples_vanish(m, den);
    assert(m * num >= 0) by (nonlinear_arith)
        requires m >= 0, num >= 0;
    lemma_div_is_ordered(0, m * num, den);
}

/// The step never exceeds `num` when the displacement is no longer than
/// the direction length (`|delta| <= den`).
pub proof fn lemma_toward_le_num(delta: int, num: int, den: int)
    requires
        den > 0,
        num >= 0,
        -den <= delta <= den,
    ensures
        -num <= spec_toward(delta, num, den) <= num,
{
    let m = if delta >= 0 { delta } else { -delta };
    assert(m * num <= den * num) by (nonlinear_arith)
        requires 0 <= m <= den, num >= 0;
    lemma_div_is_ordered(m * num, den * num, den);
    lemma_div_multiples_vanish(num, den);
    assert(m * num >= 0) by (nonlinear_arith)
        requires m >= 0, num >= 0;
    lemma_div_is_ordered(0, m * num, den);
}

/// Executable form of `spec_toward`, with bounds that keep every
/// intermediate product inside `u64`.
pub fn toward_i64(delta: i64, num: u64, den: u64) -> (r: i64)
    requires
        den > 0,
        num <= 1_000_000,
        -1_000_000_000_000 <= delta <= 1_000_000_000_000,
    ensures
        r == spec_toward(delta as int, num as int, den as int),
{
    let m: u64 = if delta >= 0 { delta as u64 } else { (-delta) as u64 };
    proof {
        assert(m * num <= 1_000_000_000_000_000_000) by (nonlinear_arith)
            requires m <= 1_000_000_000_000, num <= 1_000_000;
        lemma_div_nonincreasing(m as int * num as int, den as int);
        lemma_div_pos_is_pos(m as int * num as int, den as int);
        assert(m * num >= 0) by (nonlinear_arith);
    }
    let mag = mul_div_u64(m, num, den);
    if delta >= 0 {
        mag as i64
    } else {
        -(mag as i64)
    }
}

/// A displacement component never exceeds the rounded-down length of the
/// displacement.
pub proof fn lemma_component_le_dist(dx: int, rest: int, d: int)
    requires
        rest >= 0,
        is_sqrt_floor(dx * dx + rest, d),
    ensures
        -d <= dx <= d,
{
    assert(-(d + 1) < dx < d + 1) by (nonlinear_arith)
        requires
            rest >= 0,
            dx * dx + rest < (d + 1) * (d + 1),
            d >= 0,
    ;
}

/// The angle `rot + delta` brought back into `[0, ROT_FULL)`, for a `rot`
/// already in range and a `delta` of at most one full turn either way.
pub open spec fn added_angle(rot: int, delta: int) -> int {
    let s = rot + delta;
    if s < 0 {
        s + ROT_FULL
    } else if s >= ROT_FULL {
        s - ROT_FULL
    } else {
        s
    }
}

/// The normalised sum is exactly the Euclidean remainder of the sum
/// by a full turn.
pub proof fn lemma_added_angle_is_mod(rot: int, delta: int)
    requires
        0 <= rot < ROT_FULL,
        -ROT_FULL <= delta <= ROT_FULL,
    ensures
        added_angle(rot, delta) == (rot + delta) % (ROT_FULL as int),
{
    let s = rot + delta;
    let m = ROT_FULL as int;
    if s < 0 {
        vstd::arithmetic::div_mod::lemma_mod_add_multiples_vanish(s, m);
        vstd::arithmetic::div_mod::lemma_small_mod((s + m) as nat, m as nat);
    } else if s >= m {
        vstd::arithmetic::div_mod::lemma_mod_add_multiples_vanish(s - m, m);
        vstd::arithmetic::div_mod::lemma_small_mod((s - m) as nat, m as nat);
    } else {
        vstd::arithmetic::div_mod::lemma_small_mod(s as nat, m as nat);
    }
}

pub fn add_angle(rot: i64, delta: i64) -> (r: i64)
    requires
        0 <= rot < ROT_FULL,
        -ROT_FULL <= delta <= ROT_FULL,
    ensures
        r == added_angle(rot as int, delta as int),
        0 <= r < ROT_FULL,
{
    let s = rot + delta;
    if s < 0 {
        s + ROT_FULL
    } else if s >= ROT_FULL {
        s - ROT_FULL
    } else {
        s
    }
}

/// Rational approximation of the sine of `u` milli-degrees, for
/// `u` in `[0, 180_000]`, scaled by `SIN_SCALE`. Exact at 0, 30, 90,
/// 150 and 180 degrees, and within 0.0017 of the true sine throughout.
pub open spec fn spec_sin_half(u: int) -> int {
    (4 * u * (180_000 - u) * SIN_SCALE) / (40_500_000_000 - u * (180_000 - u))
}

/// Sine of `a` milli-degrees for `a` in `[0, ROT_FULL)`, scaled by
/// `SIN_SCALE`.
pub open spec fn spec_sin(a: int) -> int {
    if a <= 180_000 {
        spec_sin_half(a)
    } else {
        -spec_sin_half(a - 180_000)
    }
}

/// Cosine of `a` milli-degrees, as the sine a quarter turn ahead.
pub open spec fn spec_cos(a: int) -> int {
    spec_sin(if a + 90_000 < ROT_FULL { a + 90_000 } else { a + 90_000 - ROT_FULL })
}

pub proof fn lemma_sin_half_bounds(u: int)
    requires
        0 <= u <= 180_000,
    ensures
        0 <= spec_sin_half(u) <= SIN_SCALE,
{
    let p = u * (180_000 - u);
    assert(0 <= p && p <= 8_100_000_000) by (nonlinear_arith)
        requires
            0 <= u <= 180_000,
            p == u * (180_000 - u),
    ;
    let num = 4 * u * (180_000 - u) * SIN_SCALE;
    let den = 40_500_000_000 - p;
    assert(num == 4 * p * 1_000_000) by (nonlinear_arith)
        requires
            p == u * (180_000 - u),
            num == 4 * u * (180_000 - u) * 1_000_000,
    ;
    assert(num <= 1_000_000 * den);
    lemma_div_is_ordered(num, 1_000_000 * den, den);
    lemma_div_multiples_vanish(1_000_000, den);
    lemma_div_is_ordered(0, num, den);
}

pub proof fn lemma_sin_bounds(a: int)
    requires
        0 <= a < ROT_FULL,
    ensures
        -SIN_SCALE <= spec_sin(a) <= SIN_SCALE,
{
    if a <= 180_000 {
        lemma_sin_half_bounds(a);
    } else {
        lemma_sin_half_bounds(a - 180_000);
    }
}

/// Fixed-point sine of `a` milli-degrees, scaled by `SIN_SCALE`.
pub fn sin_fixed(a: i64) -> (r: i64)
    requires
        0 <= a < ROT_FULL,
    ensures
        r == spec_sin(a as int),
        -SIN_SCALE <= r <= SIN_SCALE,
{
    proof {
        lemma_sin_bounds(a as int);
    }
    if a <= 180_000 {
        sin_half_fixed(a)
    } else {
        -sin_half_fixed(a - 180_000)
    }
}

/// Fixed-point cosine of `a` milli-degrees, scaled by `SIN_SCALE`.
pub fn cos_fixed(a: i64) -> (r: i64)
    requires
        0 <= a < ROT_FULL,
    ensures
        r == spec_cos(a as int),
        -SIN_SCALE <= r <= SIN_SCALE,
{
    let shifted = if a + 90_000 < ROT_FULL { a + 90_000 } else { a + 90_000 - ROT_FULL };
    sin_fixed(shifted)
}

fn sin_half_fixed(u: i64) -> (r: i64)
    requires
        0 <= u <= 180_000,
    ensures
        r == spec_sin_half(u as int),
        0 <= r <= SIN_SCALE,
{
    proof {
        lemma_sin_half_bounds(u as int);
    }
    let a1 = u as u64;
    let a2 = (180_000 - u) as u64;
    proof {
        assert(a1 * a2 <= 8_100_000_000) by (nonlinear_arith)
            requires
                a1 + a2 == 180_000,
        ;
    }
    let p = a1 * a2;
    let num = 4 * p * 1_000_000;
    let den = 40_500_000_000 - p;
    let q = num / den;
    proof {
        assert(num == 4 * (u as int) * (180_000 - u as int) * 1_000_000) by (nonlinear_arith)
            requires
                p == u * (180_000 - u),
                num == 4 * p * 1_000_000,
        ;
    }
    q as i64
}

/// The squared distance between two points.
pub open spec fn dist2(a: (i64, i64), b: (i64, i64)) -> int {
    (a.0 - b.0) * (a.0 - b.0) + (a.1 - b.1) * (a.1 - b.1)
}

/// The squared distance between two in-range points, exact in `u64`.
pub fn dist2_u64(a: (i64, i64), b: (i64, i64)) -> (r: u64)
    requires
        -1_100_000_000 <= a.0 <= 1_100_000_000,
        -1_100_000_000 <= a.1 <= 1_100_000_000,
        -1_100_000_000 <= b.0 <= 1_100_000_000,
        -1_100_000_000 <= b.1 <= 1_100_000_000,
    ensures
        r == dist2(a, b),
{
    let dx = a.0 - b.0;
    let dy = a.1 - b.1;
    let adx: u64 = if dx < 0 { (-dx) as u64 } else { dx as u64 };
    let ady: u64 = if dy < 0 { (-dy) as u64 } else { dy as u64 };
    proof {
        assert(adx * adx == dx * dx && adx * adx <= 4_840_000_000_000_000_000)
            by (nonlinear_arith)
            requires
                adx == (if dx < 0 { -dx } else { dx as int }),
                -2_200_000_000 <= dx <= 2_200_000_000,
        ;
        assert(ady * ady == dy * dy && ady * ady <= 4_840_000_000_000_000_000)
            by (nonlinear_arith)
            requires
                ady == (if dy < 0 { -dy } else { dy as int }),
                -2_200_000_000 <= dy <= 2_200_000_000,
        ;
    }
    adx * adx + ady * ady
}

/// The distance between two in-range points, rounded down.
pub fn dist_floor(a: (i64, i64), b: (i64, i64)) -> (d: u64)
    requires
        -1_100_000_000 <= a.0 <= 1_100_000_000,
        -1_100_000_000 <= a.1 <= 1_100_000_000,
        -1_100_000_000 <= b.0 <= 1_100_000_000,
        -1_100_000_000 <= b.1 <= 1_100_000_000,
    ensures
        d == sqrt_floor(dist2(a, b)),
        is_sqrt_floor(dist2(a, b), d as int),
        d < 0x1_0000_0000,
{
    let d2 = dist2_u64(a, b);
    isqrt_u64(d2)
}

/// The magnitude of a radial offset `radius * trig / SIN_SCALE`, carrying
/// the sign of the trigonometric factor.
pub open spec fn radial_offset(radius: int, trig: int) -> int {
    if trig >= 0 {
        radius * trig / (SIN_SCALE as int)
    } else {
        -(radius * (-trig) / (SIN_SCALE as int))
    }
}

pub proof fn lemma_radial_offset_bound(radius: int, trig: int)
    requires
        0 <= radius,
        -SIN_SCALE <= trig <= SIN_SCALE,
    ensures
        -radius <= radial_offset(radius, trig) <= radius,
{
    let m = if trig >= 0 { trig } else { -trig };
    lemma_mul_inequality(m, SIN_SCALE as int, radius);
    assert(radius * m == m * radius) by (nonlinear_arith);
    assert(radius * SIN_SCALE == SIN_SCALE * radius) by (nonlinear_arith);
    lemma_div_is_ordered(radius * m, radius * SIN_SCALE, SIN_SCALE as int);
    lemma_div_multiples_vanish(radius, SIN_SCALE as int);
    assert(radius * m >= 0) by (nonlinear_arith)
        requires radius >= 0, m >= 0;
    lemma_div_is_ordered(0, radius * m, SIN_SCALE as int);
}

/// Executable form of `radial_offset`.
pub fn scale_trig(radius: i64, trig: i64) -> (r: i64)
    requires
        0 <= radius <= 100_000,
        -SIN_SCALE <= trig <= SIN_SCALE,
    ensures
        r == radial_offset(radius as int, trig as int),
        -radius <= r <= radius,
{
    proof {
        lemma_radial_offset_bound(radius as int, trig as int);
    }
    if trig >= 0 {
        let m = mul_div_u64(radius as u64, trig as u64, 1_000_000);
        m as i64
    } else {
        let m = mul_div_u64(radius as u64, (-trig) as u64, 1_000_000);
        -(m as i64)
    }
}

} // verus!
