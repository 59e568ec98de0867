//! The engine's cross-cutting guarantees, stated and proved once.
//!
//! The per-function contracts in the other modules pin each operation
//! down; the laws here state what follows for whole runs: determinism
//! from a seed, the inverse-square character of separation, exact
//! interpolation endpoints, and genuine wrap-around at the viewport
//! edges. (That the population never exceeds its bound is the registry
//! invariant `flock_wf`, re-established by the `ensures` of every
//! population-changing operation.)

use vstd::prelude::*;

use crate::animation::ConfigAnimation;
use crate::animation::anim_current;
use crate::animation::anim_wf;
use crate::bird::sep_contribution;
use crate::bird::wrap_coord;
use crate::fixed::FX_ONE;
use crate::fixed::fx_lerp;
use crate::fixed::div_trunc;
use crate::fixed::floor_sqrt;
use crate::fixed::lemma_floor_sqrt_monotone;
use crate::fixed::lemma_floor_sqrt_props;
use crate::fixed::sat;
use crate::fixed::sat_add;
use crate::fixed::sat_div;
use crate::fixed::sat_mul;
use crate::fixed::sat_sub;
use crate::flock::FlockV;
use crate::flock::add_bird_spec;
use crate::flock::choose_spec;
use crate::flock::flock_step;
use crate::vec2::vs_mag;

verus! {

/// Determinism: a simulation step is a function of the engine's
/// mathematical state and the frame inputs alone. Two engines with equal
/// states, driven by the same call, produce identical position and color
/// buffers and end in identical states — so a whole run is reproducible
/// from its seed and its call sequence.
pub proof fn lemma_step_deterministic(f1: FlockV, f2: FlockV, w: int, h: int, dt: int)
    requires
        f1 == f2,
    ensures
        flock_step(f1, w, h, dt) == flock_step(f2, w, h, dt),
{
}

/// Determinism of the random-driven operations: spawning and weighted
/// species selection are functions of the state alone as well.
pub proof fn lemma_spawn_deterministic(f1: FlockV, f2: FlockV, id: Seq<char>, x: int, y: int)
    requires
        f1 == f2,
    ensures
        add_bird_spec(f1, id, x, y) == add_bird_spec(f2, id, x, y),
        choose_spec(f1) == choose_spec(f2),
{
}

/// Interpolation starts exactly at the `from` snapshot: a blend at
/// parameter zero returns the first endpoint.
pub proof fn lemma_lerp_at_zero(a: int, b: int)
    requires
        i64::MIN <= a <= i64::MAX,
    ensures
        fx_lerp(a, b, 0) == a,
{
}

/// Interpolation converges exactly: a blend at parameter one returns the
/// second endpoint, for endpoints away from the saturation boundary.
pub proof fn lemma_lerp_at_one(a: int, b: int)
    requires
        -0x1000_0000_0000_0000 <= a <= 0x1000_0000_0000_0000,
        -0x1000_0000_0000_0000 <= b <= 0x1000_0000_0000_0000,
    ensures
        fx_lerp(a, b, FX_ONE as int) == b,
{
    let one = FX_ONE as int;
    let d = b - a;
    if d >= 0 {
        vstd::arithmetic::div_mod::lemma_div_by_multiple(d, one);
    } else {
        vstd::arithmetic::div_mod::lemma_div_by_multiple(-d, one);
        assert((d * -1) * one == (d * one) * -1) by (nonlinear_arith);
    }
    assert(div_trunc(d * one, one) == d);
}

/// A finished animation shows exactly its target: every field of the
/// blend at progress one equals the `to` snapshot.
pub proof fn lemma_anim_current_at_end(a: ConfigAnimation)
    requires
        anim_wf(a),
        a.t == FX_ONE,
        crate::animation::target_bounded(a.from),
        crate::animation::target_bounded(a.to),
    ensures
        anim_current(a) == a.to,
{
    let one = FX_ONE as int;
    lemma_lerp_at_one((a.from.probability as int) * one, (a.to.probability as int) * one);
    lemma_lerp_at_one(a.from.neighbor_distance as int, a.to.neighbor_distance as int);
    lemma_lerp_at_one(a.from.desired_separation as int, a.to.desired_separation as int);
    lemma_lerp_at_one(a.from.separation_multiplier as int, a.to.separation_multiplier as int);
    lemma_lerp_at_one(a.from.alignment_multiplier as int, a.to.alignment_multiplier as int);
    lemma_lerp_at_one(a.from.cohesion_multiplier as int, a.to.cohesion_multiplier as int);
    lemma_lerp_at_one(a.from.max_speed as int, a.to.max_speed as int);
    lemma_lerp_at_one(a.from.max_force as int, a.to.max_force as int);
    lemma_lerp_at_one(a.from.bird_size as int, a.to.bird_size as int);
    lemma_lerp_at_one((a.from.color.r as int) * one, (a.to.color.r as int) * one);
    lemma_lerp_at_one((a.from.color.g as int) * one, (a.to.color.g as int) * one);
    lemma_lerp_at_one((a.from.color.b as int) * one, (a.to.color.b as int) * one);
    let p = a.to.probability as int;
    if p >= 0 {
        vstd::arithmetic::div_mod::lemma_fundamental_div_mod_converse(
            p * one + 32768,
            one,
            p,
            32768,
        );
    } else {
        assert((0 - p * one) + 32768 == (-p) * one + 32768) by (nonlinear_arith);
        vstd::arithmetic::div_mod::lemma_fundamental_div_mod_converse(
            (-p) * one + 32768,
            one,
            -p,
            32768,
        );
    }
    assert forall|c: int| 0 <= c <= 255 implies crate::fixed::fx_lerp_u8(c, c, 0) >= 0 by {}
    let cr = a.to.color.r as int;
    let cg = a.to.color.g as int;
    let cb = a.to.color.b as int;
    vstd::arithmetic::div_mod::lemma_fundamental_div_mod_converse(cr * one + 32768, one, cr, 32768);
    vstd::arithmetic::div_mod::lemma_fundamental_div_mod_converse(cg * one + 32768, one, cg, 32768);
    vstd::arithmetic::div_mod::lemma_fundamental_div_mod_converse(cb * one + 32768, one, cb, 32768);
}

/// Boundary wrap: an agent whose position plus its inflated radius has
/// crossed the right (or top) edge of the 110%-scaled viewport reappears
/// at the opposite edge's inset, not reflected and not clamped;
/// symmetrically for the left (or bottom) edge; an agent inside the band
/// is untouched.
pub proof fn lemma_wrap_is_wraparound(x: int, half: int, r: int)
    requires
        i64::MIN <= x <= i64::MAX,
        0 <= half,
        0 <= r,
        half + r <= i64::MAX,
    ensures
        sat_add(x, r) > half ==> wrap_coord(x, half, r) == sat_add(sat_sub(0, half), r),
        sat_add(x, r) < sat_sub(0, half) ==> wrap_coord(x, half, r) == sat_sub(half, r),
        sat_sub(0, half) <= sat_add(x, r) && sat_add(x, r) <= half ==> wrap_coord(x, half, r)
            == x,
{
}

/// The color buffer over the first `j` agents holds only `[0, 1]`
/// channels, since only registry-accepted configs reach it.
proof fn lemma_color_pre_in_range(
    bs: Seq<crate::bird::BirdV>,
    cfgs: Seq<(Seq<char>, crate::bird_config::BirdConfigV)>,
    j: int,
    w: int,
    h: int,
    dt: int,
)
    requires
        forall|k: int|
            0 <= k < cfgs.len() ==> crate::bird_config::cfg_wf((#[trigger] cfgs[k]).1),
    ensures
        forall|i: int|
            0 <= i < crate::flock::sim_step_pre(bs, cfgs, j, w, h, dt).2.len() ==> 0 <= #[trigger] crate::flock::sim_step_pre(
                bs,
                cfgs,
                j,
                w,
                h,
                dt,
            ).2[i] <= FX_ONE,
    decreases j,
{
    reveal_with_fuel(crate::flock::sim_step_pre, 2);
    if j <= 0 {
    } else {
        lemma_color_pre_in_range(bs, cfgs, j - 1, w, h, dt);
        let id = bs[j - 1].config_id;
        match crate::flock::find_config(cfgs, id) {
            Option::None => {},
            Option::Some(cfg) => {
                crate::flock::lemma_find_key_idx(cfgs, id);
                assert(crate::bird_config::cfg_wf(cfg));
                let prev = crate::flock::sim_step_pre(bs, cfgs, j - 1, w, h, dt);
                let cur = crate::flock::sim_step_pre(bs, cfgs, j, w, h, dt);
                let cf = crate::flock::color_flat(cfg);
                assert(cur.2 == prev.2 + cf);
                assert forall|i: int| 0 <= i < cur.2.len() implies 0 <= #[trigger] cur.2[i]
                    <= FX_ONE by {
                    if i < prev.2.len() {
                        assert(cur.2[i] == prev.2[i]);
                    } else {
                        let m = i - prev.2.len();
                        assert(0 <= m < 9);
                        assert(cf[m] == cfg.color_r || cf[m] == cfg.color_g || cf[m]
                            == cfg.color_b);
                    }
                }
            },
        }
    }
}

/// The color buffer a whole step emits is a genuine `[0, 1]` signal per
/// channel: every entry lies within `[0, FX_ONE]`, because the registry
/// invariant admits only such channels.
pub proof fn lemma_step_colors_in_range(f: FlockV, w: int, h: int, dt: int)
    requires
        crate::flock::flock_wf(f),
    ensures
        forall|i: int|
            0 <= i < flock_step(f, w, h, dt).2.len() ==> 0 <= #[trigger] flock_step(
                f,
                w,
                h,
                dt,
            ).2[i] <= FX_ONE,
{
    lemma_color_pre_in_range(f.birds, f.configs, f.birds.len() as int, w, h, dt);
}

/// The integer square root of a perfect square is exact.
proof fn lemma_floor_sqrt_square(c: int)
    requires
        0 <= c,
    ensures
        floor_sqrt(c * c) == c,
{
    assert(c * c < (c + 1) * (c + 1)) by (nonlinear_arith)
        requires
            0 <= c,
    ;
    crate::fixed::lemma_floor_sqrt_unique(c * c, c);
}

/// A normalized vector's components stay within one unit of length: each
/// component's magnitude is at most the vector's, so dividing by the
/// magnitude lands in `[-FX_ONE, FX_ONE]`.
proof fn lemma_norm_components(v: (int, int))
    requires
        -i64::MAX <= v.0 <= i64::MAX,
        -i64::MAX <= v.1 <= i64::MAX,
    ensures
        -(FX_ONE as int) <= crate::vec2::vs_norm(v).0 <= FX_ONE as int,
        -(FX_ONE as int) <= crate::vec2::vs_norm(v).1 <= FX_ONE as int,
{
    let one = FX_ONE as int;
    let s = v.0 * v.0 + v.1 * v.1;
    assert(v.0 * v.0 >= 0 && v.1 * v.1 >= 0) by (nonlinear_arith);
    lemma_floor_sqrt_props(s);
    let f = floor_sqrt(s);
    let m = vs_mag(v);
    if m == 0 {
        assert(f == 0);
        assert(s < (f + 1) * (f + 1));
        assert((f + 1) * (f + 1) == 1) by (nonlinear_arith)
            requires
                f == 0,
        ;
        assert(v.0 == 0 && v.1 == 0) by (nonlinear_arith)
            requires
                v.0 * v.0 + v.1 * v.1 == 0,
        ;
    } else {
        lemma_component_le_sqrt(v.0, v.1);
        lemma_component_le_sqrt(v.1, v.0);
        assert(floor_sqrt(v.1 * v.1 + v.0 * v.0) == f) by {
            assert(v.1 * v.1 + v.0 * v.0 == s);
        }
        assert(0 <= f);
        assert(1 <= m);
        assert(-m <= v.0 <= m && -m <= v.1 <= m);
        lemma_div_unit(v.0, m);
        lemma_div_unit(v.1, m);
    }
}

/// A component's magnitude is at most the root of the summed squares.
proof fn lemma_component_le_sqrt(c: int, other: int)
    ensures
        -floor_sqrt(c * c + other * other) <= c <= floor_sqrt(c * c + other * other),
{
    let a = if c >= 0 {
        c
    } else {
        -c
    };
    lemma_floor_sqrt_square(a);
    assert(a * a <= c * c + other * other) by (nonlinear_arith)
        requires
            a == c || a == -c,
    ;
    assert(c * c + other * other >= 0) by (nonlinear_arith);
    lemma_floor_sqrt_monotone(a * a, c * c + other * other);
}

/// Dividing a value by a magnitude at least its own lands within one
/// fixed-point unit.
proof fn lemma_div_unit(c: int, m: int)
    requires
        1 <= m,
        -m <= c <= m,
    ensures
        -(FX_ONE as int) <= crate::fixed::sat_div(c, m) <= FX_ONE as int,
{
    let one = FX_ONE as int;
    let a = if c >= 0 {
        c
    } else {
        -c
    };
    assert(a * one <= m * one) by (nonlinear_arith)
        requires
            a <= m,
            one > 0,
    ;
    vstd::arithmetic::div_mod::lemma_div_is_ordered(a * one, m * one, m);
    assert(m * one == one * m) by (nonlinear_arith);
    vstd::arithmetic::div_mod::lemma_div_by_multiple(one, m);
    vstd::arithmetic::div_mod::lemma_div_pos_is_pos(a * one, m);
    if c >= 0 {
        assert(div_trunc(c * one, m) == (c * one) / m);
    } else {
        assert(c * one == -(a * one)) by (nonlinear_arith)
            requires
                a == -c,
        ;
    }
}

/// The divisor the separation rule uses for a neighbor at distance `d`:
/// the squared distance on the fixed-point grid, floored at the smallest
/// positive grid value.
pub open spec fn sep_divisor(d: int) -> int {
    if sat_mul(d, d) > 0 {
        sat_mul(d, d)
    } else {
        1
    }
}

/// One component of the separation push, for magnitude reasoning.
proof fn lemma_sep_component_ordered(c: int, sq1: int, sq2: int)
    requires
        -(FX_ONE as int) <= c <= FX_ONE as int,
        1 <= sq1 <= sq2,
    ensures
        crate::fixed::sat_div(c, sq1) * crate::fixed::sat_div(c, sq1) >= crate::fixed::sat_div(
            c,
            sq2,
        ) * crate::fixed::sat_div(c, sq2),
{
    let one = FX_ONE as int;
    let a = if c >= 0 {
        c
    } else {
        -c
    };
    vstd::arithmetic::div_mod::lemma_div_is_ordered_by_denominator(a * one, sq1, sq2);
    vstd::arithmetic::div_mod::lemma_div_pos_is_pos(a * one, sq1);
    vstd::arithmetic::div_mod::lemma_div_pos_is_pos(a * one, sq2);
    vstd::arithmetic::div_mod::lemma_div_nonincreasing(a * one, sq1);
    vstd::arithmetic::div_mod::lemma_div_nonincreasing(a * one, sq2);
    let q1 = (a * one) / sq1;
    let q2 = (a * one) / sq2;
    assert(0 <= q2 <= q1 <= a * one);
    if c >= 0 {
        assert(div_trunc(c * one, sq1) == q1 && div_trunc(c * one, sq2) == q2);
        assert(q1 * q1 >= q2 * q2) by (nonlinear_arith)
            requires
                0 <= q2 <= q1,
        ;
    } else {
        assert(c * one == -(a * one)) by (nonlinear_arith)
            requires
                a == -c,
        ;
        assert(div_trunc(c * one, sq1) == -q1 && div_trunc(c * one, sq2) == -q2);
        assert((-q1) * (-q1) >= (-q2) * (-q2)) by (nonlinear_arith)
            requires
                0 <= q2 <= q1,
        ;
    }
}

/// Separation follows an inverse-square law: with the same direction to
/// the neighbor, a closer contributing neighbor pushes at least as hard
/// as a farther one. (On the fixed-point grid the push can only be
/// *strictly* stronger once the squared distances are far enough apart
/// to land on different grid values — see
/// [`lemma_separation_strictly_stronger`].)
pub proof fn lemma_separation_monotone(away: (int, int), d1: int, d2: int)
    requires
        -i64::MAX <= away.0 <= i64::MAX,
        -i64::MAX <= away.1 <= i64::MAX,
        0 < d1 <= d2,
        d2 <= 0x4000_0000_0000,
    ensures
        vs_mag(sep_contribution(away, d1)) >= vs_mag(sep_contribution(away, d2)),
{
    let one = FX_ONE as int;
    let n = crate::vec2::vs_norm(away);
    lemma_norm_components(away);
    assert(d1 * d1 <= d2 * d2 <= 0x4000_0000_0000 * 0x4000_0000_0000) by (nonlinear_arith)
        requires
            0 < d1 <= d2 <= 0x4000_0000_0000,
    ;
    vstd::arithmetic::div_mod::lemma_div_is_ordered(d1 * d1, d2 * d2, one);
    vstd::arithmetic::div_mod::lemma_div_pos_is_pos(d1 * d1, one);
    vstd::arithmetic::div_mod::lemma_div_pos_is_pos(d2 * d2, one);
    let sq1 = sep_divisor(d1);
    let sq2 = sep_divisor(d2);
    assert(1 <= sq1 <= sq2);
    lemma_sep_component_ordered(n.0, sq1, sq2);
    lemma_sep_component_ordered(n.1, sq1, sq2);
    let p1 = sep_contribution(away, d1);
    let p2 = sep_contribution(away, d2);
    assert(p1.0 * p1.0 + p1.1 * p1.1 >= p2.0 * p2.0 + p2.1 * p2.1);
    assert(p2.0 * p2.0 >= 0 && p2.1 * p2.1 >= 0) by (nonlinear_arith);
    lemma_floor_sqrt_monotone(p2.0 * p2.0 + p2.1 * p2.1, p1.0 * p1.0 + p1.1 * p1.1);
}

/// Separation's inverse-square law, strict form: along a fixed axis, the
/// push from the closer of two contributing neighbors is strictly
/// stronger, whenever the fixed-point grid can tell the two squared
/// distances apart (the closer one's divisor fits twice into the farther
/// one's) and the farther push has not itself rounded down to nothing.
/// (On the grid, strictness genuinely needs such a gap: two distances
/// whose squares truncate to the same grid value push equally hard.)
pub proof fn lemma_separation_strictly_stronger(d1: int, d2: int)
    requires
        0 < d1 <= d2 <= 0x4000_0000_0000,
        2 * sep_divisor(d1) <= sep_divisor(d2),
        div_trunc((FX_ONE as int) * (FX_ONE as int), sep_divisor(d2)) >= 1,
    ensures
        vs_mag(sep_contribution(((FX_ONE as int), 0int), d1)) > vs_mag(
            sep_contribution(((FX_ONE as int), 0int), d2),
        ),
{
    let one = FX_ONE as int;
    let m = one * one;
    let sq1 = sep_divisor(d1);
    let sq2 = sep_divisor(d2);
    lemma_floor_sqrt_square(one);
    assert(crate::vec2::vs_mag((one, 0int)) == one) by {
        assert(one * one + 0 * 0 == one * one) by (nonlinear_arith);
    }
    vstd::arithmetic::div_mod::lemma_div_by_multiple(one, one);
    assert(crate::vec2::vs_norm((one, 0int)) == (one, 0int)) by {
        assert(div_trunc(one * one, one) == one);
        assert(div_trunc(0 * one, one) == 0) by (nonlinear_arith);
    }
    let q1 = (m) / sq1;
    let q2 = (m) / sq2;
    vstd::arithmetic::div_mod::lemma_div_pos_is_pos(m, sq1);
    vstd::arithmetic::div_mod::lemma_div_pos_is_pos(m, sq2);
    vstd::arithmetic::div_mod::lemma_div_nonincreasing(m, sq1);
    vstd::arithmetic::div_mod::lemma_div_nonincreasing(m, sq2);
    vstd::arithmetic::div_mod::lemma_fundamental_div_mod(m, sq2);
    assert(m >= q2 * sq2);
    assert(q2 * sq2 >= (2 * q2) * sq1) by (nonlinear_arith)
        requires
            q2 >= 0,
            sq2 >= 2 * sq1,
            sq1 >= 1,
    ;
    vstd::arithmetic::div_mod::lemma_div_is_ordered((2 * q2) * sq1, m, sq1);
    vstd::arithmetic::div_mod::lemma_div_by_multiple(2 * q2, sq1);
    assert(q1 >= 2 * q2);
    let p1 = sep_contribution((one, 0int), d1);
    let p2 = sep_contribution((one, 0int), d2);
    assert(p1 == (sat(q1), sat(div_trunc(0 * one, sq1)))) by {
        assert(div_trunc(0 * one, sq1) == 0) by (nonlinear_arith);
    }
    assert(p2 == (sat(q2), sat(div_trunc(0 * one, sq2)))) by {
        assert(div_trunc(0 * one, sq2) == 0) by (nonlinear_arith);
    }
    lemma_floor_sqrt_square(q1);
    lemma_floor_sqrt_square(q2);
    assert(q1 * q1 + 0 * 0 == q1 * q1 && q2 * q2 + 0 * 0 == q2 * q2) by (nonlinear_arith);
}

} // verus!
