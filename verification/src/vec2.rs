//! Two-dimensional fixed-point vectors.
//!
//! Components use the saturating fixed-point arithmetic of [`crate::fixed`].
//! The view of a vector is the pair of its components as unbounded integers.

use vstd::prelude::*;

use crate::fixed::div_count;
use crate::fixed::div_trunc;
use crate::fixed::floor_sqrt;
use crate::fixed::fx_add;
use crate::fixed::fx_div;
use crate::fixed::fx_mul;
use crate::fixed::fx_sub;
use crate::fixed::isqrt;
use crate::fixed::sat;
use crate::fixed::sat_add;
use crate::fixed::sat_div;
use crate::fixed::sat_mul;
use crate::fixed::sat_sub;

verus! {

/// A 2-D vector of fixed-point components.
#[derive(Clone, Copy, PartialEq, Eq, Structural, Debug)]
pub struct Vec2 {
    pub x: i64,
    pub y: i64,
}

impl View for Vec2 {
    type V = (int, int);

    open spec fn view(&self) -> (int, int) {
        (self.x as int, self.y as int)
    }
}

/// Componentwise saturating sum.
pub open spec fn vs_add(a: (int, int), b: (int, int)) -> (int, int) {
    (sat_add(a.0, b.0), sat_add(a.1, b.1))
}

/// Componentwise saturating difference.
pub open spec fn vs_sub(a: (int, int), b: (int, int)) -> (int, int) {
    (sat_sub(a.0, b.0), sat_sub(a.1, b.1))
}

/// Both components scaled by the fixed-point factor `k`.
pub open spec fn vs_scale(a: (int, int), k: int) -> (int, int) {
    (sat_mul(a.0, k), sat_mul(a.1, k))
}

/// Both components divided by the plain integer `n` (no rescaling).
pub open spec fn vs_div_count(a: (int, int), n: int) -> (int, int) {
    (sat(div_trunc(a.0, n)), sat(div_trunc(a.1, n)))
}

/// The Euclidean length, rounded down to the fixed-point grid.
pub open spec fn vs_mag(a: (int, int)) -> int {
    sat(floor_sqrt(a.0 * a.0 + a.1 * a.1))
}

/// The vector rescaled to length one (`FX_ONE`); the zero vector, which has
/// no direction, is returned unchanged.
pub open spec fn vs_norm(a: (int, int)) -> (int, int) {
    if vs_mag(a) == 0 {
        a
    } else {
        (sat_div(a.0, vs_mag(a)), sat_div(a.1, vs_mag(a)))
    }
}

/// The vector, rescaled to length `max` if it is longer than `max`.
pub open spec fn vs_clamp_mag(a: (int, int), max: int) -> (int, int) {
    if vs_mag(a) > max {
        vs_scale(vs_norm(a), max)
    } else {
        a
    }
}

impl Vec2 {
    /// The zero vector.
    pub fn zero() -> (r: Vec2)
        ensures
            r@ == (0int, 0int),
    {
        Vec2 { x: 0, y: 0 }
    }

    /// Make a vector from its two components.
    pub fn new(x: i64, y: i64) -> (r: Vec2)
        ensures
            r@ == (x as int, y as int),
    {
        Vec2 { x, y }
    }

    /// Componentwise sum.
    pub fn plus(self, o: Vec2) -> (r: Vec2)
        ensures
            r@ == vs_add(self@, o@),
    {
        Vec2 { x: fx_add(self.x, o.x), y: fx_add(self.y, o.y) }
    }

    /// Componentwise difference.
    pub fn minus(self, o: Vec2) -> (r: Vec2)
        ensures
            r@ == vs_sub(self@, o@),
    {
        Vec2 { x: fx_sub(self.x, o.x), y: fx_sub(self.y, o.y) }
    }

    /// Scale by a fixed-point factor.
    pub fn scale(self, k: i64) -> (r: Vec2)
        ensures
            r@ == vs_scale(self@, k as int),
    {
        Vec2 { x: fx_mul(self.x, k), y: fx_mul(self.y, k) }
    }

    /// Divide both components by a plain nonzero count.
    pub fn div_count(self, n: i64) -> (r: Vec2)
        requires
            n != 0,
        ensures
            r@ == vs_div_count(self@, n as int),
    {
        Vec2 { x: div_count(self.x, n), y: div_count(self.y, n) }
    }

    /// The Euclidean length of the vector.
    pub fn magnitude(&self) -> (r: i64)
        ensures
            r as int == vs_mag(self@),
            r >= 0,
    {
        proof {
            assert(0 <= (self.x as int) * (self.x as int)
                && (self.x as int) * (self.x as int) <= 0x4000_0000_0000_0000_0000_0000_0000_0000)
                by (nonlinear_arith)
                requires
                    i64::MIN <= self.x <= i64::MAX,
            ;
            assert(0 <= (self.y as int) * (self.y as int)
                && (self.y as int) * (self.y as int) <= 0x4000_0000_0000_0000_0000_0000_0000_0000)
                by (nonlinear_arith)
                requires
                    i64::MIN <= self.y <= i64::MAX,
            ;
        }
        let px: i128 = (self.x as i128) * (self.x as i128);
        let py: i128 = (self.y as i128) * (self.y as i128);
        let s: u128 = (px as u128) + (py as u128);
        let r64: u64 = isqrt(s);
        if r64 > i64::MAX as u64 {
            i64::MAX
        } else {
            r64 as i64
        }
    }

    /// The vector rescaled to unit length; the zero vector stays put.
    pub fn normalized(self) -> (r: Vec2)
        ensures
            r@ == vs_norm(self@),
    {
        let m: i64 = self.magnitude();
        if m == 0 {
            self
        } else {
            Vec2 { x: fx_div(self.x, m), y: fx_div(self.y, m) }
        }
    }
}

/// Limit a steering vector to the magnitude `max`: anything longer is
/// rescaled to length `max`, anything within the limit is untouched.
pub fn clamp_magnitude(v: &mut Vec2, max: i64)
    ensures
        final(v)@ == vs_clamp_mag(old(v)@, max as int),
{
    let m: i64 = v.magnitude();
    if m > max {
        *v = v.normalized().scale(max);
    }
}

} // verus!
