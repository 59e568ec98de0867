//! Saturating fixed-point arithmetic.
//!
//! A quantity is an `i64` holding its value scaled by `FX_ONE` (2^16), so
//! `65536` stands for `1.0` and `32768` for `0.5`. Multiplication and
//! division rescale by `FX_ONE` and truncate toward zero; every result is
//! saturated into the `i64` range, so all operations are total.

use vstd::prelude::*;

verus! {

/// The fixed-point representation of `1.0`.
pub const FX_ONE: i64 = 65536;

/// The fixed-point representation of `0.5`.
pub const FX_HALF: i64 = 32768;

/// Saturate an unbounded integer into the `i64` range.
pub open spec fn sat(x: int) -> int {
    if x > i64::MAX {
        i64::MAX as int
    } else if x < i64::MIN {
        i64::MIN as int
    } else {
        x
    }
}

/// Quotient of `x` by `d`, truncated toward zero, as Rust's integer
/// division computes it. Zero when `d` is zero (callers rule that out).
pub open spec fn div_trunc(x: int, d: int) -> int {
    if x == 0 || d == 0 {
        0
    } else if x > 0 && d > 0 {
        x / d
    } else if x < 0 && d < 0 {
        (x * -1) / (d * -1)
    } else if x < 0 {
        ((x * -1) / d) * -1
    } else {
        (x / (d * -1)) * -1
    }
}

/// Saturating fixed-point sum.
pub open spec fn sat_add(a: int, b: int) -> int {
    sat(a + b)
}

/// Saturating fixed-point difference.
pub open spec fn sat_sub(a: int, b: int) -> int {
    sat(a - b)
}

/// Saturating fixed-point product: `a * b` rescaled by `FX_ONE`.
pub open spec fn sat_mul(a: int, b: int) -> int {
    sat(div_trunc(a * b, FX_ONE as int))
}

/// Saturating fixed-point quotient: `a / b` rescaled by `FX_ONE`.
pub open spec fn sat_div(a: int, b: int) -> int {
    sat(div_trunc(a * (FX_ONE as int), b))
}

/// Saturate an `i128` intermediate into the `i64` range.
pub fn clip128(x: i128) -> (r: i64)
    ensures
        r as int == sat(x as int),
{
    if x > i64::MAX as i128 {
        i64::MAX
    } else if x < i64::MIN as i128 {
        i64::MIN
    } else {
        x as i64
    }
}

/// Saturating addition.
pub fn fx_add(a: i64, b: i64) -> (r: i64)
    ensures
        r as int == sat_add(a as int, b as int),
{
    clip128((a as i128) + (b as i128))
}

/// Saturating subtraction.
pub fn fx_sub(a: i64, b: i64) -> (r: i64)
    ensures
        r as int == sat_sub(a as int, b as int),
{
    clip128((a as i128) - (b as i128))
}

proof fn lemma_div_magnitude_shrinks(x: int, d: int)
    requires
        x >= 0,
        d >= 1,
    ensures
        0 <= x / d <= x,
{
    assert(0 <= x / d <= x) by (nonlinear_arith)
        requires
            x >= 0,
            d >= 1,
    ;
}

/// The truncated quotient never has larger magnitude than the dividend.
proof fn lemma_div_trunc_bounds(x: int, d: int)
    requires
        d != 0,
    ensures
        x >= 0 ==> -x <= div_trunc(x, d) <= x,
        x < 0 ==> x <= div_trunc(x, d) <= -x,
{
    if x > 0 && d > 0 {
        lemma_div_magnitude_shrinks(x, d);
    } else if x < 0 && d < 0 {
        lemma_div_magnitude_shrinks(x * -1, d * -1);
    } else if x < 0 {
        lemma_div_magnitude_shrinks(x * -1, d);
    } else if x > 0 {
        lemma_div_magnitude_shrinks(x, d * -1);
    }
}

/// Saturating fixed-point multiplication.
pub fn fx_mul(a: i64, b: i64) -> (r: i64)
    ensures
        r as int == sat_mul(a as int, b as int),
{
    proof {
        assert((a as int) * (b as int) <= i128::MAX && i128::MIN <= (a as int) * (b as int))
            by (nonlinear_arith)
            requires
                i64::MIN <= a <= i64::MAX,
                i64::MIN <= b <= i64::MAX,
        ;
    }
    let p: i128 = (a as i128) * (b as i128);
    proof {
        lemma_div_trunc_bounds(p as int, FX_ONE as int);
    }
    let q: Option<i128> = p.checked_div(FX_ONE as i128);
    clip128(q.unwrap())
}

/// Saturating fixed-point division. The divisor must be nonzero.
pub fn fx_div(a: i64, b: i64) -> (r: i64)
    requires
        b != 0,
    ensures
        r as int == sat_div(a as int, b as int),
{
    proof {
        assert((a as int) * (FX_ONE as int) <= i128::MAX && i128::MIN <= (a as int) * (FX_ONE as int))
            by (nonlinear_arith)
            requires
                i64::MIN <= a <= i64::MAX,
        ;
    }
    let p: i128 = (a as i128) * (FX_ONE as i128);
    proof {
        lemma_div_trunc_bounds(p as int, b as int);
    }
    let q: Option<i128> = p.checked_div(b as i128);
    clip128(q.unwrap())
}

/// Saturating product by a plain integer factor (no rescaling).
pub fn mul_int(a: i64, k: i64) -> (r: i64)
    ensures
        r as int == sat((a as int) * (k as int)),
{
    proof {
        assert((a as int) * (k as int) <= i128::MAX && i128::MIN <= (a as int) * (k as int))
            by (nonlinear_arith)
            requires
                i64::MIN <= a <= i64::MAX,
                i64::MIN <= k <= i64::MAX,
        ;
    }
    clip128((a as i128) * (k as i128))
}

/// Saturating truncated division without the fixed-point rescaling, for
/// dividing an accumulated sum by a plain count.
pub fn div_count(a: i64, b: i64) -> (r: i64)
    requires
        b != 0,
    ensures
        r as int == sat(div_trunc(a as int, b as int)),
{
    proof {
        lemma_div_trunc_bounds(a as int, b as int);
    }
    let q: Option<i128> = (a as i128).checked_div(b as i128);
    clip128(q.unwrap())
}

/// Linear interpolation between `a` and `b` at parameter `t`.
pub open spec fn fx_lerp(a: int, b: int, t: int) -> int {
    sat_add(a, sat_mul(sat_sub(b, a), t))
}

/// Linear interpolation: `a + (b - a) * t`, with `t` a fixed-point
/// parameter (`FX_ONE` meaning `1.0`).
pub fn lerp(a: i64, b: i64, t: i64) -> (r: i64)
    ensures
        r as int == fx_lerp(a as int, b as int, t as int),
{
    fx_add(a, fx_mul(fx_sub(b, a), t))
}

/// Linear interpolation of a byte channel, rounded to the nearest integer
/// and clamped into `0 ..= 255`.
pub open spec fn fx_lerp_u8(a: int, b: int, t: int) -> int {
    let v = fx_lerp(a * (FX_ONE as int), b * (FX_ONE as int), t);
    let w = sat(v + (FX_HALF as int));
    if w <= 0 {
        0
    } else if w / (FX_ONE as int) > 255 {
        255
    } else {
        w / (FX_ONE as int)
    }
}

/// The product of two magnitude-bounded values is magnitude-bounded.
pub proof fn lemma_mul_magnitude(a: int, b: int, ca: int, cb: int)
    requires
        0 <= ca,
        0 <= cb,
        -ca <= a <= ca,
        -cb <= b <= cb,
    ensures
        -(ca * cb) <= a * b <= ca * cb,
{
    assert(-(ca * cb) <= a * b <= ca * cb) by (nonlinear_arith)
        requires
            0 <= ca,
            0 <= cb,
            -ca <= a <= ca,
            -cb <= b <= cb,
    ;
}

/// A saturating fixed-point product of magnitude-bounded factors stays
/// within `cap`, provided the factor bounds keep the rescaled product
/// there.
pub proof fn lemma_sat_mul_bound(a: int, b: int, ca: int, cb: int, cap: int)
    requires
        0 <= ca,
        0 <= cb,
        0 <= cap,
        -ca <= a <= ca,
        -cb <= b <= cb,
        ca * cb <= cap * (FX_ONE as int),
    ensures
        -cap <= sat_mul(a, b) <= cap,
{
    lemma_mul_magnitude(a, b, ca, cb);
    let p = a * b;
    let one = FX_ONE as int;
    assert(0 < one);
    assert(p <= ca * cb);
    assert(-(ca * cb) <= p);
    assert(p <= cap * one);
    assert(p * -1 == -p) by (nonlinear_arith);
    assert(p * -1 <= cap * one);
    vstd::arithmetic::div_mod::lemma_div_by_multiple(cap, one);
    assert((cap * one) / one == cap);
    if p >= 0 {
        vstd::arithmetic::div_mod::lemma_div_is_ordered(p, cap * one, one);
        assert(p / one <= cap);
    } else {
        vstd::arithmetic::div_mod::lemma_div_is_ordered(p * -1, cap * one, one);
        assert((p * -1) / one <= cap);
    }
}

/// A saturating fixed-point product of non-negative factors is
/// non-negative.
pub proof fn lemma_sat_mul_nonneg(a: int, b: int)
    requires
        0 <= a,
        0 <= b,
    ensures
        0 <= sat_mul(a, b),
{
    assert(0 <= a * b) by (nonlinear_arith)
        requires
            0 <= a,
            0 <= b,
    ;
}

/// For a blend parameter in `[0, 1]` and endpoints far from the
/// saturation boundary, the interpolated value stays between the
/// endpoints.
pub proof fn lemma_lerp_between(a: int, b: int, t: int)
    requires
        0 <= t <= FX_ONE,
        -0x1000_0000_0000_0000 <= a <= 0x1000_0000_0000_0000,
        -0x1000_0000_0000_0000 <= b <= 0x1000_0000_0000_0000,
    ensures
        a <= b ==> a <= fx_lerp(a, b, t) <= b,
        b <= a ==> b <= fx_lerp(a, b, t) <= a,
{
    let one = FX_ONE as int;
    let d = b - a;
    assert(sat_sub(b, a) == d);
    if d >= 0 {
        vstd::arithmetic::div_mod::lemma_div_by_multiple(d, one);
        assert(0 <= d * t <= d * one) by (nonlinear_arith)
            requires
                0 <= t <= one,
                0 <= d,
        ;
        vstd::arithmetic::div_mod::lemma_div_is_ordered(d * t, d * one, one);
        vstd::arithmetic::div_mod::lemma_div_pos_is_pos(d * t, one);
        assert(0 <= div_trunc(d * t, one) <= d);
    } else {
        vstd::arithmetic::div_mod::lemma_div_by_multiple(-d, one);
        assert(0 <= (d * t) * -1 <= (-d) * one) by (nonlinear_arith)
            requires
                0 <= t <= one,
                d < 0,
        ;
        vstd::arithmetic::div_mod::lemma_div_is_ordered((d * t) * -1, (-d) * one, one);
        vstd::arithmetic::div_mod::lemma_div_pos_is_pos((d * t) * -1, one);
        assert(d <= div_trunc(d * t, one) <= 0);
    }
}

/// The integer square root: the unique `r >= 0` with
/// `r * r <= x < (r + 1) * (r + 1)`.
pub open spec fn floor_sqrt(x: int) -> int {
    choose|r: int| 0 <= r && #[trigger] (r * r) <= x && x < (r + 1) * (r + 1)
}

/// Only one integer satisfies the square-root bracketing, so any witness
/// equals `floor_sqrt`.
pub proof fn lemma_floor_sqrt_unique(x: int, r: int)
    requires
        0 <= r,
        r * r <= x,
        x < (r + 1) * (r + 1),
    ensures
        floor_sqrt(x) == r,
{
    assert(exists|s: int| 0 <= s && #[trigger] (s * s) <= x && x < (s + 1) * (s + 1)) by {
        assert(0 <= r && r * r <= x && x < (r + 1) * (r + 1));
    }
    let s = floor_sqrt(x);
    assert(0 <= s && s * s <= x && x < (s + 1) * (s + 1));
    if s < r {
        assert((s + 1) * (s + 1) <= r * r) by (nonlinear_arith)
            requires
                0 <= s,
                s < r,
        ;
    }
    if r < s {
        assert((r + 1) * (r + 1) <= s * s) by (nonlinear_arith)
            requires
                0 <= r,
                r < s,
        ;
    }
}

/// Every non-negative integer has an integer square root, and
/// `floor_sqrt` is it.
pub proof fn lemma_floor_sqrt_props(x: int)
    requires
        0 <= x,
    ensures
        0 <= floor_sqrt(x),
        floor_sqrt(x) * floor_sqrt(x) <= x,
        x < (floor_sqrt(x) + 1) * (floor_sqrt(x) + 1),
    decreases x,
{
    if x == 0 {
        lemma_floor_sqrt_unique(0, 0);
    } else {
        lemma_floor_sqrt_props(x - 1);
        let r = floor_sqrt(x - 1);
        if x < (r + 1) * (r + 1) {
            lemma_floor_sqrt_unique(x, r);
        } else {
            assert(x == (r + 1) * (r + 1));
            assert((r + 1) * (r + 1) < (r + 2) * (r + 2)) by (nonlinear_arith)
                requires
                    0 <= r,
            ;
            lemma_floor_sqrt_unique(x, r + 1);
        }
    }
}

/// The integer square root never decreases.
pub proof fn lemma_floor_sqrt_monotone(a: int, b: int)
    requires
        0 <= a <= b,
    ensures
        floor_sqrt(a) <= floor_sqrt(b),
{
    lemma_floor_sqrt_props(a);
    lemma_floor_sqrt_props(b);
    let ra = floor_sqrt(a);
    let rb = floor_sqrt(b);
    if rb < ra {
        assert((rb + 1) * (rb + 1) <= ra * ra) by (nonlinear_arith)
            requires
                0 <= rb,
                rb + 1 <= ra,
        ;
    }
}

/// Integer square root of a 128-bit value, by bisection.
pub fn isqrt(x: u128) -> (r: u64)
    ensures
        r as int == floor_sqrt(x as int),
        (r as int) * (r as int) <= x as int,
        x < ((r as int) + 1) * ((r as int) + 1),
{
    let mut lo: u128 = 0;
    let mut hi: u128 = 0x1_0000_0000_0000_0000;
    if x >= 0xffff_ffff_ffff_ffff * 0xffff_ffff_ffff_ffff {
        proof {
            lemma_floor_sqrt_unique(x as int, 0xffff_ffff_ffff_ffff as int);
        }
        return 0xffff_ffff_ffff_ffff;
    }
    while lo + 1 < hi
        invariant
            0 <= lo < hi <= 0x1_0000_0000_0000_0000,
            (lo as int) * (lo as int) <= x as int,
            (x as int) < (hi as int) * (hi as int),
        decreases hi - lo,
    {
        let mid: u128 = lo + (hi - lo) / 2;
        assert(lo < mid < hi);
        proof {
            assert((mid as int) * (mid as int) < 0x1_0000_0000_0000_0000_0000_0000_0000_0000)
                by (nonlinear_arith)
                requires
                    0 <= mid < 0x1_0000_0000_0000_0000,
            ;
        }
        let m2: u128 = mid * mid;
        if m2 <= x {
            lo = mid;
        } else {
            hi = mid;
        }
    }
    proof {
        lemma_floor_sqrt_unique(x as int, lo as int);
    }
    lo as u64
}

/// Interpolate between two byte channels, rounding to the nearest value.
pub fn lerp_u8(a: u8, b: u8, t: i64) -> (r: u8)
    ensures
        r as int == fx_lerp_u8(a as int, b as int, t as int),
{
    let v: i64 = lerp((a as i64) * FX_ONE, (b as i64) * FX_ONE, t);
    let w: i64 = fx_add(v, FX_HALF);
    if w <= 0 {
        0u8
    } else {
        let q: i64 = w / FX_ONE;
        if q > 255 {
            255u8
        } else {
            q as u8
        }
    }
}

} // verus!
