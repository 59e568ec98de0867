//! Randomized, smoothly interpolated species parameters.
//!
//! Periodically — while randomization is enabled — every species gets a
//! fresh uniformly random parameter target, and its live config is blended
//! linearly from its previous value to the target over a fixed duration.
//! A finished animation is discarded; a species removed mid-animation is
//! silently skipped.

use vstd::prelude::*;

use crate::bird_config::BirdConfig;
use crate::bird_config::BirdConfigV;
use crate::bird_config::cfg_wf;
use crate::bird_config::MAX_BIRD_SIZE;
use crate::bird_config::MAX_PERCEPTION_RADIUS;
use crate::fixed::FX_HALF;
use crate::fixed::FX_ONE;
use crate::fixed::div_count;
use crate::fixed::div_trunc;
use crate::fixed::fx_add;
use crate::fixed::fx_lerp;
use crate::fixed::fx_lerp_u8;
use crate::fixed::fx_mul;
use crate::fixed::lerp;
use crate::fixed::lerp_u8;
use crate::fixed::sat;
use crate::fixed::sat_add;
use crate::fixed::sat_mul;
use crate::rng::rand32_next_range;
use crate::rng::rand32_next_unit;
use crate::rng::rng_range;
use crate::rng::rng_unit;

verus! {

/// Whether the periodic randomization of species parameters is running.
#[derive(Clone, Copy, PartialEq, Eq, Structural, Debug)]
pub enum Activation {
    Enabled,
    Disabled,
}

/// An sRGB color with byte channels.
#[derive(Clone, Copy, PartialEq, Eq, Structural, Debug)]
pub struct Rgb {
    pub r: u8,
    pub g: u8,
    pub b: u8,
}

/// Channelwise interpolation of two colors.
pub fn lerp_color(a: Rgb, b: Rgb, t: i64) -> (r: Rgb)
    ensures
        r.r as int == fx_lerp_u8(a.r as int, b.r as int, t as int),
        r.g as int == fx_lerp_u8(a.g as int, b.g as int, t as int),
        r.b as int == fx_lerp_u8(a.b as int, b.b as int, t as int),
{
    Rgb { r: lerp_u8(a.r, b.r, t), g: lerp_u8(a.g, b.g, t), b: lerp_u8(a.b, b.b, t) }
}

/// 0.001 in fixed-point: the smallest multiplier the randomizer hands out,
/// and the floor for animation durations.
pub const FX_MILLI: i64 = 66;

/// 1.199 in fixed-point: the spread of the randomized steering gains.
pub const FX_GAIN_SPREAD: i64 = 78577;

/// 0.499 in fixed-point: the spread of the randomized force limit.
pub const FX_FORCE_SPREAD: i64 = 32702;

/// 9.999 in fixed-point: the spread of the randomized speed limit.
pub const FX_SPEED_SPREAD: i64 = 655294;

/// 3.0 in fixed-point: the smallest randomized render size.
pub const FX_SIZE_BASE: i64 = 196608;

/// 12.0 in fixed-point: the spread of the randomized render size.
pub const FX_SIZE_SPREAD: i64 = 786432;

/// A full set of species parameters, as the randomizer draws them: the
/// interpolation endpoints.
#[derive(Clone, Copy, PartialEq, Eq, Structural, Debug)]
pub struct BirdConfigTarget {
    pub probability: i32,
    pub neighbor_distance: i64,
    pub desired_separation: i64,
    pub separation_multiplier: i64,
    pub alignment_multiplier: i64,
    pub cohesion_multiplier: i64,
    pub max_speed: i64,
    pub max_force: i64,
    pub bird_size: i64,
    pub color: Rgb,
}

/// A target all of whose fields sit far from the saturation boundary —
/// where fixed-point blending is exact.
pub open spec fn target_bounded(t: BirdConfigTarget) -> bool {
    &&& -0x1000_0000_0000_0000 <= t.neighbor_distance <= 0x1000_0000_0000_0000
    &&& -0x1000_0000_0000_0000 <= t.desired_separation <= 0x1000_0000_0000_0000
    &&& -0x1000_0000_0000_0000 <= t.separation_multiplier <= 0x1000_0000_0000_0000
    &&& -0x1000_0000_0000_0000 <= t.alignment_multiplier <= 0x1000_0000_0000_0000
    &&& -0x1000_0000_0000_0000 <= t.cohesion_multiplier <= 0x1000_0000_0000_0000
    &&& -0x1000_0000_0000_0000 <= t.max_speed <= 0x1000_0000_0000_0000
    &&& -0x1000_0000_0000_0000 <= t.max_force <= 0x1000_0000_0000_0000
    &&& -0x1000_0000_0000_0000 <= t.bird_size <= 0x1000_0000_0000_0000
}

/// The documented ranges of one randomly drawn target: spawn weight in
/// `[25, 75)`; perception radius in `[0, 50)` and separation radius in
/// `[50, 250)` world units, on the whole-unit grid; the three gains in
/// `[0.001, 1.2)`; force limit in `[0.001, 0.5)`; speed limit in
/// `[0.001, 10)`; render size in `[3, 15)`; each color channel a byte
/// below 255.
pub open spec fn target_in_ranges(t: BirdConfigTarget) -> bool {
    &&& 25 <= t.probability < 75
    &&& 0 <= t.neighbor_distance < 50 * FX_ONE
    &&& 50 * FX_ONE <= t.desired_separation < 250 * FX_ONE
    &&& FX_MILLI <= t.separation_multiplier < FX_MILLI + FX_GAIN_SPREAD
    &&& FX_MILLI <= t.alignment_multiplier < FX_MILLI + FX_GAIN_SPREAD
    &&& FX_MILLI <= t.cohesion_multiplier < FX_MILLI + FX_GAIN_SPREAD
    &&& FX_MILLI <= t.max_force < FX_MILLI + FX_FORCE_SPREAD
    &&& FX_MILLI <= t.max_speed < FX_MILLI + FX_SPEED_SPREAD
    &&& FX_SIZE_BASE <= t.bird_size < FX_SIZE_BASE + FX_SIZE_SPREAD
    &&& t.color.r < 255
    &&& t.color.g < 255
    &&& t.color.b < 255
}

/// Scaling a positive spread by a unit draw lands inside `[0, spread)`.
proof fn lemma_unit_scale_range(u: int, s: int)
    requires
        0 <= u < FX_ONE,
        0 < s,
    ensures
        0 <= sat_mul(u, s) < s,
{
    let one = FX_ONE as int;
    if u == 0 {
        assert(u * s == 0) by (nonlinear_arith)
            requires
                u == 0,
        ;
        assert(sat_mul(u, s) == 0);
    } else {
        assert(0 < u * s && u * s < one * s) by (nonlinear_arith)
            requires
                0 < u < one,
                0 < s,
        ;
        vstd::arithmetic::div_mod::lemma_div_pos_is_pos(u * s, one);
        vstd::arithmetic::div_mod::lemma_multiply_divide_lt(u * s, one, s);
        assert(0 <= (u * s) / one < s);
        assert(div_trunc(u * s, one) == (u * s) / one);
    }
}

/// A target whose geometric fields a config registry would accept.
pub open spec fn target_wf(t: BirdConfigTarget) -> bool {
    &&& 0 <= t.neighbor_distance <= MAX_PERCEPTION_RADIUS
    &&& 0 <= t.bird_size <= MAX_BIRD_SIZE
}

/// A fixed-point color channel in `[0, 1]` truncated to a byte channel,
/// saturating at the byte range like the float-to-int cast it models.
pub open spec fn fx_to_u8(c: int) -> int {
    let v = sat(div_trunc(sat(c * 255), FX_ONE as int));
    if v < 0 {
        0
    } else if v > 255 {
        255
    } else {
        v
    }
}

/// A byte channel as a fixed-point fraction of 255.
pub open spec fn u8_to_fx(c: int) -> int {
    sat(div_trunc(c * (FX_ONE as int), 255))
}

/// A byte channel widens to a genuine `[0, 1]` fixed-point fraction.
pub proof fn lemma_u8_to_fx_range(c: int)
    requires
        0 <= c <= 255,
    ensures
        0 <= u8_to_fx(c) <= FX_ONE,
{
    let one = FX_ONE as int;
    if c > 0 {
        assert(c * one <= 255 * one) by (nonlinear_arith)
            requires
                0 <= c <= 255,
                0 < one,
        ;
        vstd::arithmetic::div_mod::lemma_div_pos_is_pos(c * one, 255);
        vstd::arithmetic::div_mod::lemma_div_is_ordered(c * one, 255 * one, 255);
        assert(255 * one == one * 255) by (nonlinear_arith);
        vstd::arithmetic::div_mod::lemma_div_by_multiple(one, 255);
    }
}

/// Truncate a fixed-point color channel to a byte channel.
fn channel_to_u8(c: i64) -> (r: u8)
    ensures
        r as int == fx_to_u8(c as int),
{
    let m: i64 = crate::fixed::mul_int(c, 255);
    let v: i64 = div_count(m, FX_ONE);
    if v < 0 {
        0u8
    } else if v > 255 {
        255u8
    } else {
        v as u8
    }
}

/// Widen a byte channel to a fixed-point fraction of 255.
pub(crate) fn channel_to_fx(c: u8) -> (r: i64)
    ensures
        r as int == u8_to_fx(c as int),
        0 <= r <= FX_ONE,
{
    proof {
        lemma_u8_to_fx_range(c as int);
    }
    div_count((c as i64) * FX_ONE, 255)
}

/// The target that snapshots a live config.
pub open spec fn target_of(c: BirdConfigV) -> BirdConfigTarget {
    BirdConfigTarget {
        probability: c.probability as i32,
        neighbor_distance: c.neighbor_distance as i64,
        desired_separation: c.desired_separation as i64,
        separation_multiplier: c.separation_multiplier as i64,
        alignment_multiplier: c.alignment_multiplier as i64,
        cohesion_multiplier: c.cohesion_multiplier as i64,
        max_speed: c.max_speed as i64,
        max_force: c.max_force as i64,
        bird_size: c.bird_size as i64,
        color: Rgb {
            r: fx_to_u8(c.color_r) as u8,
            g: fx_to_u8(c.color_g) as u8,
            b: fx_to_u8(c.color_b) as u8,
        },
    }
}

/// The config that a target writes over a live config: every tunable
/// field replaced, the id kept.
pub open spec fn applied_target(c: BirdConfigV, t: BirdConfigTarget) -> BirdConfigV {
    BirdConfigV {
        id: c.id,
        probability: t.probability as int,
        neighbor_distance: t.neighbor_distance as int,
        desired_separation: t.desired_separation as int,
        separation_multiplier: t.separation_multiplier as int,
        alignment_multiplier: t.alignment_multiplier as int,
        cohesion_multiplier: t.cohesion_multiplier as int,
        max_speed: t.max_speed as int,
        max_force: t.max_force as int,
        bird_size: t.bird_size as int,
        color_r: u8_to_fx(t.color.r as int),
        color_g: u8_to_fx(t.color.g as int),
        color_b: u8_to_fx(t.color.b as int),
    }
}

/// The uniformly random target the randomizer draws, and the generator
/// state after the twelve draws (spawn weight in `[25, 75)`, perception
/// radius in `[0, 50)`, separation radius in `[50, 250)` — both in world
/// units — the three gains in `[0.001, 1.2)`, force limit in
/// `[0.001, 0.5)`, speed limit in `[0.001, 10)`, render size in `[3, 15)`
/// and a byte per color channel).
pub open spec fn target_random(state: (u64, u64)) -> (BirdConfigTarget, (u64, u64)) {
    let d1 = rand32_next_range(state, 25, 75);
    let d2 = rand32_next_range(d1.1, 0, 50);
    let d3 = rand32_next_range(d2.1, 50, 250);
    let d4 = rand32_next_unit(d3.1);
    let d5 = rand32_next_unit(d4.1);
    let d6 = rand32_next_unit(d5.1);
    let d7 = rand32_next_unit(d6.1);
    let d8 = rand32_next_unit(d7.1);
    let d9 = rand32_next_unit(d8.1);
    let dr = rand32_next_range(d9.1, 0, 255);
    let dg = rand32_next_range(dr.1, 0, 255);
    let db = rand32_next_range(dg.1, 0, 255);
    (
        BirdConfigTarget {
            probability: d1.0 as i32,
            neighbor_distance: ((d2.0 as int) * (FX_ONE as int)) as i64,
            desired_separation: ((d3.0 as int) * (FX_ONE as int)) as i64,
            separation_multiplier: sat_add(FX_MILLI as int, sat_mul(d4.0 as int, FX_GAIN_SPREAD as int)) as i64,
            alignment_multiplier: sat_add(FX_MILLI as int, sat_mul(d5.0 as int, FX_GAIN_SPREAD as int)) as i64,
            cohesion_multiplier: sat_add(FX_MILLI as int, sat_mul(d6.0 as int, FX_GAIN_SPREAD as int)) as i64,
            max_force: sat_add(FX_MILLI as int, sat_mul(d7.0 as int, FX_FORCE_SPREAD as int)) as i64,
            max_speed: sat_add(FX_MILLI as int, sat_mul(d8.0 as int, FX_SPEED_SPREAD as int)) as i64,
            bird_size: sat_add(FX_SIZE_BASE as int, sat_mul(d9.0 as int, FX_SIZE_SPREAD as int)) as i64,
            color: Rgb { r: dr.0 as u8, g: dg.0 as u8, b: db.0 as u8 },
        },
        db.1,
    )
}

impl BirdConfigTarget {
    /// Snapshot a live config as an interpolation endpoint.
    pub fn from_cfg(cfg: &BirdConfig) -> (r: BirdConfigTarget)
        ensures
            r == target_of(cfg@),
    {
        BirdConfigTarget {
            probability: cfg.probability,
            neighbor_distance: cfg.neighbor_distance,
            desired_separation: cfg.desired_separation,
            separation_multiplier: cfg.separation_multiplier,
            alignment_multiplier: cfg.alignment_multiplier,
            cohesion_multiplier: cfg.cohesion_multiplier,
            max_speed: cfg.max_speed,
            max_force: cfg.max_force,
            bird_size: cfg.bird_size,
            color: Rgb {
                r: channel_to_u8(cfg.color_r),
                g: channel_to_u8(cfg.color_g),
                b: channel_to_u8(cfg.color_b),
            },
        }
    }

    /// Draw a uniformly random target within the documented ranges.
    pub fn random(state: (u64, u64)) -> (r: (BirdConfigTarget, (u64, u64)))
        requires
            state.1 % 2 == 1,
        ensures
            r == target_random(state),
            target_wf(r.0),
            target_in_ranges(r.0),
            r.1.1 == state.1,
    {
        let d1 = rng_range(state, 25, 75);
        let d2 = rng_range(d1.1, 0, 50);
        let d3 = rng_range(d2.1, 50, 250);
        let d4 = rng_unit(d3.1);
        let d5 = rng_unit(d4.1);
        let d6 = rng_unit(d5.1);
        let d7 = rng_unit(d6.1);
        let d8 = rng_unit(d7.1);
        let d9 = rng_unit(d8.1);
        let dr = rng_range(d9.1, 0, 255);
        let dg = rng_range(dr.1, 0, 255);
        let db = rng_range(dg.1, 0, 255);
        proof {
            lemma_unit_scale_range(d4.0 as int, FX_GAIN_SPREAD as int);
            lemma_unit_scale_range(d5.0 as int, FX_GAIN_SPREAD as int);
            lemma_unit_scale_range(d6.0 as int, FX_GAIN_SPREAD as int);
            lemma_unit_scale_range(d7.0 as int, FX_FORCE_SPREAD as int);
            lemma_unit_scale_range(d8.0 as int, FX_SPEED_SPREAD as int);
            lemma_unit_scale_range(d9.0 as int, FX_SIZE_SPREAD as int);
        }
        (
            BirdConfigTarget {
                probability: d1.0 as i32,
                neighbor_distance: (d2.0 as i64) * FX_ONE,
                desired_separation: (d3.0 as i64) * FX_ONE,
                separation_multiplier: fx_add(FX_MILLI, fx_mul(d4.0, FX_GAIN_SPREAD)),
                alignment_multiplier: fx_add(FX_MILLI, fx_mul(d5.0, FX_GAIN_SPREAD)),
                cohesion_multiplier: fx_add(FX_MILLI, fx_mul(d6.0, FX_GAIN_SPREAD)),
                max_force: fx_add(FX_MILLI, fx_mul(d7.0, FX_FORCE_SPREAD)),
                max_speed: fx_add(FX_MILLI, fx_mul(d8.0, FX_SPEED_SPREAD)),
                bird_size: fx_add(FX_SIZE_BASE, fx_mul(d9.0, FX_SIZE_SPREAD)),
                color: Rgb { r: dr.0 as u8, g: dg.0 as u8, b: db.0 as u8 },
            },
            db.1,
        )
    }

    /// Write this target's values over a live config, keeping its id.
    pub fn apply_to_cfg(&self, cfg: &mut BirdConfig)
        ensures
            final(cfg)@ == applied_target(old(cfg)@, *self),
    {
        cfg.probability = self.probability;
        cfg.neighbor_distance = self.neighbor_distance;
        cfg.desired_separation = self.desired_separation;
        cfg.separation_multiplier = self.separation_multiplier;
        cfg.alignment_multiplier = self.alignment_multiplier;
        cfg.cohesion_multiplier = self.cohesion_multiplier;
        cfg.max_speed = self.max_speed;
        cfg.max_force = self.max_force;
        cfg.bird_size = self.bird_size;
        cfg.color_r = channel_to_fx(self.color.r);
        cfg.color_g = channel_to_fx(self.color.g);
        cfg.color_b = channel_to_fx(self.color.b);
    }
}

/// Round a fixed-point value to the nearest integer, halves away from
/// zero, then clamp it into the `i32` range — how the interpolated spawn
/// weight is written back.
pub open spec fn round_weight(v: int) -> int {
    let q = if v >= 0 {
        sat(div_trunc(sat(v + FX_HALF), FX_ONE as int))
    } else {
        0 - sat(div_trunc(sat((0 - v) + FX_HALF), FX_ONE as int))
    };
    if q > i32::MAX {
        i32::MAX as int
    } else if q < i32::MIN {
        i32::MIN as int
    } else {
        q
    }
}

/// Round an interpolated spawn weight back to an `i32`.
fn round_weight_i32(v: i64) -> (r: i32)
    ensures
        r as int == round_weight(v as int),
{
    let q: i64 = if v >= 0 {
        div_count(fx_add(v, FX_HALF), FX_ONE)
    } else {
        let m: i64 = div_count(fx_add(crate::fixed::fx_sub(0, v), FX_HALF), FX_ONE);
        crate::fixed::fx_sub(0, m)
    };
    if q > i32::MAX as i64 {
        i32::MAX
    } else if q < i32::MIN as i64 {
        i32::MIN
    } else {
        q as i32
    }
}

/// Transient per-species interpolation state: the `from` and `to`
/// parameter snapshots, the progress `t` in `[0, 1]` and the total
/// duration, both fixed-point. Destroyed by its owner once `t` reaches 1.
#[derive(Clone, Copy, PartialEq, Eq, Structural, Debug)]
pub struct ConfigAnimation {
    pub from: BirdConfigTarget,
    pub to: BirdConfigTarget,
    pub t: i64,
    pub duration_s: i64,
}

/// The invariant of a live animation.
pub open spec fn anim_wf(a: ConfigAnimation) -> bool {
    &&& target_wf(a.from)
    &&& target_wf(a.to)
    &&& 0 <= a.t <= FX_ONE
    &&& FX_MILLI <= a.duration_s
}

/// A fresh animation: progress zero, the duration floored at one
/// millisecond.
pub open spec fn anim_new(from: BirdConfigTarget, to: BirdConfigTarget, duration_s: i64) -> ConfigAnimation {
    ConfigAnimation {
        from,
        to,
        t: 0,
        duration_s: if duration_s < FX_MILLI {
            FX_MILLI
        } else {
            duration_s
        },
    }
}

/// One tick of an animation: progress advances by `dt / duration`,
/// capped at one.
pub open spec fn anim_stepped(a: ConfigAnimation, dt: int) -> ConfigAnimation {
    let s = sat_add(a.t as int, crate::fixed::sat_div(dt, a.duration_s as int));
    ConfigAnimation {
        t: if s > FX_ONE {
            FX_ONE
        } else {
            s as i64
        },
        ..a
    }
}

/// The blend an animation currently shows: every numeric field linearly
/// interpolated at parameter `t`, the spawn weight rounded back to an
/// integer and the color channels interpolated bytewise.
pub open spec fn anim_current(a: ConfigAnimation) -> BirdConfigTarget {
    BirdConfigTarget {
        probability: round_weight(
            fx_lerp(
                (a.from.probability as int) * (FX_ONE as int),
                (a.to.probability as int) * (FX_ONE as int),
                a.t as int,
            ),
        ) as i32,
        neighbor_distance: fx_lerp(
            a.from.neighbor_distance as int,
            a.to.neighbor_distance as int,
            a.t as int,
        ) as i64,
        desired_separation: fx_lerp(
            a.from.desired_separation as int,
            a.to.desired_separation as int,
            a.t as int,
        ) as i64,
        separation_multiplier: fx_lerp(
            a.from.separation_multiplier as int,
            a.to.separation_multiplier as int,
            a.t as int,
        ) as i64,
        alignment_multiplier: fx_lerp(
            a.from.alignment_multiplier as int,
            a.to.alignment_multiplier as int,
            a.t as int,
        ) as i64,
        cohesion_multiplier: fx_lerp(
            a.from.cohesion_multiplier as int,
            a.to.cohesion_multiplier as int,
            a.t as int,
        ) as i64,
        max_speed: fx_lerp(a.from.max_speed as int, a.to.max_speed as int, a.t as int) as i64,
        max_force: fx_lerp(a.from.max_force as int, a.to.max_force as int, a.t as int) as i64,
        bird_size: fx_lerp(a.from.bird_size as int, a.to.bird_size as int, a.t as int) as i64,
        color: Rgb {
            r: fx_lerp_u8(a.from.color.r as int, a.to.color.r as int, a.t as int) as u8,
            g: fx_lerp_u8(a.from.color.g as int, a.to.color.g as int, a.t as int) as u8,
            b: fx_lerp_u8(a.from.color.b as int, a.to.color.b as int, a.t as int) as u8,
        },
    }
}

impl ConfigAnimation {
    /// Start an interpolation from one snapshot to another over
    /// `duration_s` seconds (floored at one millisecond).
    pub fn new(from: BirdConfigTarget, to: BirdConfigTarget, duration_s: i64) -> (r: ConfigAnimation)
        requires
            target_wf(from),
            target_wf(to),
        ensures
            r == anim_new(from, to, duration_s),
            anim_wf(r),
    {
        ConfigAnimation {
            from,
            to,
            t: 0,
            duration_s: if duration_s < FX_MILLI {
                FX_MILLI
            } else {
                duration_s
            },
        }
    }

    /// Advance the progress by `dt_s / duration`, capped at one.
    pub fn step(&mut self, dt_s: i64)
        requires
            anim_wf(*old(self)),
            0 <= dt_s,
        ensures
            *final(self) == anim_stepped(*old(self), dt_s as int),
            anim_wf(*final(self)),
    {
        let q: i64 = crate::fixed::fx_div(dt_s, self.duration_s);
        proof {
            vstd::arithmetic::div_mod::lemma_div_pos_is_pos(
                (dt_s as int) * (FX_ONE as int),
                self.duration_s as int,
            );
        }
        let s: i64 = fx_add(self.t, q);
        self.t = if s > FX_ONE {
            FX_ONE
        } else {
            s
        };
    }

    /// Whether the blend has reached its target.
    pub fn finished(&self) -> (r: bool)
        ensures
            r == (self.t >= FX_ONE),
    {
        self.t >= FX_ONE
    }

    /// The blend this animation currently shows.
    pub fn current(&self) -> (r: BirdConfigTarget)
        ensures
            r == anim_current(*self),
            anim_wf(*self) ==> target_wf(r),
    {
        proof {
            if anim_wf(*self) {
                crate::fixed::lemma_lerp_between(
                    self.from.neighbor_distance as int,
                    self.to.neighbor_distance as int,
                    self.t as int,
                );
                crate::fixed::lemma_lerp_between(
                    self.from.bird_size as int,
                    self.to.bird_size as int,
                    self.t as int,
                );
            }
        }
        BirdConfigTarget {
            probability: round_weight_i32(
                lerp(
                    crate::fixed::mul_int(self.from.probability as i64, FX_ONE),
                    crate::fixed::mul_int(self.to.probability as i64, FX_ONE),
                    self.t,
                ),
            ),
            neighbor_distance: lerp(self.from.neighbor_distance, self.to.neighbor_distance, self.t),
            desired_separation: lerp(
                self.from.desired_separation,
                self.to.desired_separation,
                self.t,
            ),
            separation_multiplier: lerp(
                self.from.separation_multiplier,
                self.to.separation_multiplier,
                self.t,
            ),
            alignment_multiplier: lerp(
                self.from.alignment_multiplier,
                self.to.alignment_multiplier,
                self.t,
            ),
            cohesion_multiplier: lerp(
                self.from.cohesion_multiplier,
                self.to.cohesion_multiplier,
                self.t,
            ),
            max_speed: lerp(self.from.max_speed, self.to.max_speed, self.t),
            max_force: lerp(self.from.max_force, self.to.max_force, self.t),
            bird_size: lerp(self.from.bird_size, self.to.bird_size, self.t),
            color: lerp_color(self.from.color, self.to.color, self.t),
        }
    }
}

/// The first index of the animation table holding `id`, or `-1`.
pub open spec fn anim_key_idx(s: Seq<(Seq<char>, ConfigAnimation)>, id: Seq<char>) -> int
    decreases s.len(),
{
    if s.len() == 0 {
        -1
    } else if s[0].0 == id {
        0
    } else {
        let r = anim_key_idx(s.drop_first(), id);
        if r < 0 {
            -1
        } else {
            r + 1
        }
    }
}

/// `anim_key_idx` finds exactly the first index whose key is `id`.
proof fn lemma_anim_key_idx(s: Seq<(Seq<char>, ConfigAnimation)>, id: Seq<char>)
    ensures
        (exists|k: int| 0 <= k < s.len() && (#[trigger] s[k]).0 == id) <==> anim_key_idx(s, id)
            >= 0,
        anim_key_idx(s, id) >= 0 ==> {
            let j = anim_key_idx(s, id);
            &&& j < s.len()
            &&& s[j].0 == id
            &&& forall|k: int| 0 <= k < j ==> (#[trigger] s[k]).0 != id
        },
    decreases s.len(),
{
    if s.len() == 0 {
    } else if s[0].0 == id {
    } else {
        let rest = s.drop_first();
        lemma_anim_key_idx(rest, id);
        if exists|k: int| 0 <= k < s.len() && (#[trigger] s[k]).0 == id {
            let k = choose|k: int| 0 <= k < s.len() && (#[trigger] s[k]).0 == id;
            assert(k > 0);
            assert(rest[k - 1].0 == id);
            assert(anim_key_idx(rest, id) >= 0);
        }
        if anim_key_idx(rest, id) >= 0 {
            let r = anim_key_idx(rest, id);
            assert(s[r + 1].0 == rest[r].0);
            assert(rest[r].0 == id);
            assert forall|k: int| 0 <= k < r + 1 implies (#[trigger] s[k]).0 != id by {
                if k > 0 {
                    assert(rest[k - 1].0 != id);
                }
            }
        }
    }
}

/// The animation table after filing `a` under `id`: a replacement in
/// place at the first slot holding `id`, else appended.
pub open spec fn anim_insert(
    s: Seq<(Seq<char>, ConfigAnimation)>,
    id: Seq<char>,
    a: ConfigAnimation,
) -> Seq<(Seq<char>, ConfigAnimation)> {
    let k = anim_key_idx(s, id);
    if k < 0 {
        s.push((id, a))
    } else {
        s.update(k, (id, a))
    }
}

/// The animation table's mathematical value.
pub open spec fn anims_view(s: Seq<(String, ConfigAnimation)>) -> Seq<(Seq<char>, ConfigAnimation)> {
    s.map_values(|p: (String, ConfigAnimation)| (p.0@, p.1))
}

/// Find the animation-table slot holding `id`.
fn anim_index(v: &Vec<(String, ConfigAnimation)>, id: &String) -> (r: Option<usize>)
    ensures
        match r {
            Some(j) => j == anim_key_idx(anims_view(v@), id@),
            None => anim_key_idx(anims_view(v@), id@) < 0,
        },
{
    proof {
        lemma_anim_key_idx(anims_view(v@), id@);
    }
    let mut j: usize = 0;
    while j < v.len()
        invariant
            j <= v.len(),
            forall|k: int| 0 <= k < j ==> (#[trigger] anims_view(v@)[k]).0 != id@,
        decreases v.len() - j,
    {
        if v[j].0 == *id {
            proof {
                let av = anims_view(v@);
                lemma_anim_key_idx(av, id@);
                assert(exists|k: int| 0 <= k < av.len() && (#[trigger] av[k]).0 == id@) by {
                    assert(0 <= j < av.len() && av[j as int].0 == id@);
                }
                let f = anim_key_idx(av, id@);
                assert(f >= 0);
                assert(av[f].0 == id@);
                if f > j as int {
                    assert(av[j as int].0 != id@);
                }
                assert(f == j as int);
            }
            return Some(j);
        }
        j = j + 1;
    }
    None
}

/// The periodic randomize-and-blend subsystem: the accumulated time since
/// the last cycle, the cycle period, the blend duration (all fixed-point
/// seconds), and one in-flight animation per animated species.
pub struct RandomizationAnimation {
    pub secs_since_last_cycle: i64,
    pub cycle_every_s: i64,
    pub interpolation_s: i64,
    active: Vec<(String, ConfigAnimation)>,
}

/// The mathematical value of a [`RandomizationAnimation`].
pub struct RandAnimV {
    pub secs_since_last_cycle: int,
    pub cycle_every_s: int,
    pub interpolation_s: int,
    pub active: Seq<(Seq<char>, ConfigAnimation)>,
}

impl View for RandomizationAnimation {
    type V = RandAnimV;

    closed spec fn view(&self) -> RandAnimV {
        RandAnimV {
            secs_since_last_cycle: self.secs_since_last_cycle as int,
            cycle_every_s: self.cycle_every_s as int,
            interpolation_s: self.interpolation_s as int,
            active: anims_view(self.active@),
        }
    }
}

/// The subsystem's invariant: every in-flight animation is well formed.
pub open spec fn ra_wf(v: RandAnimV) -> bool {
    forall|k: int| 0 <= k < v.active.len() ==> anim_wf((#[trigger] v.active[k]).1)
}

impl Default for RandomizationAnimation {
    /// Fresh state: cycle every ten seconds, blend over two.
    fn default() -> (r: RandomizationAnimation)
        ensures
            r@ == (RandAnimV {
                secs_since_last_cycle: 0,
                cycle_every_s: 10 * FX_ONE as int,
                interpolation_s: 2 * FX_ONE as int,
                active: Seq::<(Seq<char>, ConfigAnimation)>::empty(),
            }),
            ra_wf(r@),
    {
        let r = RandomizationAnimation {
            secs_since_last_cycle: 0,
            cycle_every_s: 10 * FX_ONE,
            interpolation_s: 2 * FX_ONE,
            active: Vec::new(),
        };
        proof {
            assert(anims_view(r.active@) =~= Seq::<(Seq<char>, ConfigAnimation)>::empty());
        }
        r
    }
}

/// The animation table and generator after starting a cycle over the
/// first `j` registry entries: each species' live config is snapshotted
/// as `from`, a random target is drawn as `to`, and the pair is filed
/// under the species' id (replacing any older animation for it).
pub open spec fn start_cycle_pre(
    acts: Seq<(Seq<char>, ConfigAnimation)>,
    cfgs: Seq<(Seq<char>, BirdConfigV)>,
    rng: (u64, u64),
    j: int,
    dur: i64,
) -> (Seq<(Seq<char>, ConfigAnimation)>, (u64, u64))
    decreases j,
{
    if j <= 0 {
        (acts, rng)
    } else {
        let prev = start_cycle_pre(acts, cfgs, rng, j - 1, dur);
        let drawn = target_random(prev.1);
        (
            anim_insert(prev.0, cfgs[j - 1].0, anim_new(target_of(cfgs[j - 1].1), drawn.0, dur)),
            drawn.1,
        )
    }
}

/// What one call of [`RandomizationAnimation::maybe_start_cycle`] does:
/// nothing while randomization is disabled; otherwise the clock
/// accumulates, and on reaching the cycle period it resets and every
/// registered species gets a fresh animation toward a random target.
pub open spec fn maybe_start_spec(
    ra: RandAnimV,
    rng: (u64, u64),
    activation: Activation,
    dt: int,
    cfgs: Seq<(Seq<char>, BirdConfigV)>,
) -> (RandAnimV, (u64, u64)) {
    if activation is Disabled {
        (ra, rng)
    } else {
        let secs = sat_add(ra.secs_since_last_cycle, dt);
        if secs < ra.cycle_every_s {
            (RandAnimV { secs_since_last_cycle: secs, ..ra }, rng)
        } else {
            let c = start_cycle_pre(ra.active, cfgs, rng, cfgs.len() as int, ra.interpolation_s as i64);
            (RandAnimV { secs_since_last_cycle: 0, active: c.0, ..ra }, c.1)
        }
    }
}

/// The registry after writing an animation's current blend over the
/// config registered under `id` — a silent skip if the species is gone.
pub open spec fn apply_target_at(
    cfgs: Seq<(Seq<char>, BirdConfigV)>,
    id: Seq<char>,
    t: BirdConfigTarget,
) -> Seq<(Seq<char>, BirdConfigV)> {
    let k = crate::flock::find_key_idx(cfgs, id);
    if k < 0 {
        cfgs
    } else {
        cfgs.update(k, (cfgs[k].0, applied_target(cfgs[k].1, t)))
    }
}

/// The animation table and registry after ticking the first `j` in-flight
/// animations: each advances by `dt`, writes its current blend into its
/// species' live config, and is discarded once its progress reaches one.
pub open spec fn anims_step_pre(
    acts: Seq<(Seq<char>, ConfigAnimation)>,
    cfgs: Seq<(Seq<char>, BirdConfigV)>,
    j: int,
    dt: int,
) -> (Seq<(Seq<char>, ConfigAnimation)>, Seq<(Seq<char>, BirdConfigV)>)
    decreases j,
{
    if j <= 0 {
        (Seq::<(Seq<char>, ConfigAnimation)>::empty(), cfgs)
    } else {
        let prev = anims_step_pre(acts, cfgs, j - 1, dt);
        let a2 = anim_stepped(acts[j - 1].1, dt);
        let cfgs2 = apply_target_at(prev.1, acts[j - 1].0, anim_current(a2));
        if a2.t >= FX_ONE {
            (prev.0, cfgs2)
        } else {
            (prev.0.push((acts[j - 1].0, a2)), cfgs2)
        }
    }
}

impl RandomizationAnimation {
    /// Accumulate time and, once every cycle period — and only while
    /// randomization is enabled — start a fresh randomize-and-blend
    /// animation for every registered species.
    pub fn maybe_start_cycle(
        &mut self,
        rng: &mut (u64, u64),
        activation: Activation,
        dt_s: i64,
        configs: &Vec<(String, BirdConfig)>,
    )
        requires
            ra_wf(old(self)@),
            old(rng).1 % 2 == 1,
            forall|k: int|
                0 <= k < crate::flock::registry_view(configs@).len() ==> crate::bird_config::cfg_wf(
                    (#[trigger] crate::flock::registry_view(configs@)[k]).1,
                ),
        ensures
            ra_wf(final(self)@),
            final(rng).1 == old(rng).1,
            (final(self)@, *final(rng)) == maybe_start_spec(
                old(self)@,
                *old(rng),
                activation,
                dt_s as int,
                crate::flock::registry_view(configs@),
            ),
    {
        let ghost rv = crate::flock::registry_view(configs@);
        let ghost acts0 = anims_view(self.active@);
        let ghost rng0 = *rng;
        proof {
            assert forall|k: int| 0 <= k < anims_view(self.active@).len() implies anim_wf(
                (#[trigger] anims_view(self.active@)[k]).1,
            ) by {
                assert(anim_wf(old(self)@.active[k].1));
            }
        }
        match activation {
            Activation::Disabled => {
                return ;
            },
            Activation::Enabled => {},
        }
        self.secs_since_last_cycle = fx_add(self.secs_since_last_cycle, dt_s);
        if self.secs_since_last_cycle < self.cycle_every_s {
            return ;
        }
        self.secs_since_last_cycle = 0;
        let dur: i64 = self.interpolation_s;
        let mut j: usize = 0;
        while j < configs.len()
            invariant
                j <= configs.len(),
                rv == crate::flock::registry_view(configs@),
                forall|k: int|
                    0 <= k < rv.len() ==> crate::bird_config::cfg_wf((#[trigger] rv[k]).1),
                (anims_view(self.active@), *rng) == start_cycle_pre(acts0, rv, rng0, j as int, dur),
                (*rng).1 == rng0.1,
                rng0.1 % 2 == 1,
                forall|k: int|
                    0 <= k < anims_view(self.active@).len() ==> anim_wf(
                        (#[trigger] anims_view(self.active@)[k]).1,
                    ),
                forall|k: int| 0 <= k < acts0.len() ==> anim_wf((#[trigger] acts0[k]).1),
                self.secs_since_last_cycle == 0,
                self.cycle_every_s == old(self).cycle_every_s,
                self.interpolation_s == old(self).interpolation_s,
                dur == old(self).interpolation_s,
            decreases configs.len() - j,
        {
            proof {
                assert(rv[j as int].1 == configs@[j as int].1@);
                assert(cfg_wf(rv[j as int].1));
            }
            let from = BirdConfigTarget::from_cfg(&configs[j].1);
            let drawn = BirdConfigTarget::random(*rng);
            *rng = drawn.1;
            let anim = ConfigAnimation::new(from, drawn.0, dur);
            let ghost before = anims_view(self.active@);
            match anim_index(&self.active, &configs[j].0) {
                Some(k) => {
                    proof {
                        lemma_anim_key_idx(before, configs@[j as int].0@);
                        assert(0 <= k < self.active@.len());
                    }
                    self.active.remove(k);
                    self.active.insert(k, (configs[j].0.clone(), anim));
                    proof {
                        assert(anims_view(self.active@) =~= anim_insert(
                            before,
                            rv[j as int].0,
                            anim,
                        ));
                    }
                },
                None => {
                    self.active.push((configs[j].0.clone(), anim));
                    proof {
                        assert(anims_view(self.active@) =~= anim_insert(
                            before,
                            rv[j as int].0,
                            anim,
                        ));
                    }
                },
            }
            j = j + 1;
        }
    }

    /// Advance every in-flight animation, write each current blend into
    /// its species' live config (skipping species that have been removed
    /// mid-animation), and discard the animations that have finished.
    pub fn step(&mut self, dt_s: i64, configs: &mut Vec<(String, BirdConfig)>)
        requires
            ra_wf(old(self)@),
            0 <= dt_s,
            forall|k: int|
                0 <= k < crate::flock::registry_view(old(configs)@).len()
                    ==> crate::bird_config::cfg_wf(
                    (#[trigger] crate::flock::registry_view(old(configs)@)[k]).1,
                ),
        ensures
            ra_wf(final(self)@),
            ({
                let r = anims_step_pre(
                    old(self)@.active,
                    crate::flock::registry_view(old(configs)@),
                    old(self)@.active.len() as int,
                    dt_s as int,
                );
                final(self)@ == (RandAnimV { active: r.0, ..old(self)@ }) && crate::flock::registry_view(
                    final(configs)@,
                ) == r.1
            }),
            forall|k: int|
                0 <= k < crate::flock::registry_view(final(configs)@).len()
                    ==> crate::bird_config::cfg_wf(
                    (#[trigger] crate::flock::registry_view(final(configs)@)[k]).1,
                ),
    {
        let ghost acts0 = anims_view(self.active@);
        let ghost rv0 = crate::flock::registry_view(old(configs)@);
        proof {
            assert forall|k: int| 0 <= k < acts0.len() implies anim_wf(
                (#[trigger] acts0[k]).1,
            ) by {
                assert(anim_wf(old(self)@.active[k].1));
            }
        }
        let mut new_active: Vec<(String, ConfigAnimation)> = Vec::new();
        let mut i: usize = 0;
        let n: usize = self.active.len();
        while i < n
            invariant
                i <= n,
                n == self.active@.len(),
                0 <= dt_s,
                acts0 == anims_view(self.active@),
                forall|k: int| 0 <= k < acts0.len() ==> anim_wf((#[trigger] acts0[k]).1),
                (anims_view(new_active@), crate::flock::registry_view(configs@)) == anims_step_pre(
                    acts0,
                    rv0,
                    i as int,
                    dt_s as int,
                ),
                forall|k: int|
                    0 <= k < anims_view(new_active@).len() ==> anim_wf(
                        (#[trigger] anims_view(new_active@)[k]).1,
                    ),
                forall|k: int|
                    0 <= k < crate::flock::registry_view(configs@).len()
                        ==> crate::bird_config::cfg_wf(
                        (#[trigger] crate::flock::registry_view(configs@)[k]).1,
                    ),
                self.secs_since_last_cycle == old(self).secs_since_last_cycle,
                self.cycle_every_s == old(self).cycle_every_s,
                self.interpolation_s == old(self).interpolation_s,
            decreases n - i,
        {
            proof {
                assert(acts0[i as int] == (self.active@[i as int].0@, self.active@[i as int].1));
                assert(anim_wf(acts0[i as int].1));
            }
            let mut a: ConfigAnimation = self.active[i].1;
            a.step(dt_s);
            let cur = a.current();
            let ghost rv_before = crate::flock::registry_view(configs@);
            match crate::flock::config_index(configs, &self.active[i].0) {
                Some(k) => {
                    proof {
                        crate::flock::lemma_find_key_idx(rv_before, acts0[i as int].0);
                    }
                    let mut entry = configs.remove(k);
                    cur.apply_to_cfg(&mut entry.1);
                    configs.insert(k, entry);
                    proof {
                        assert(crate::flock::registry_view(configs@) =~= apply_target_at(
                            rv_before,
                            acts0[i as int].0,
                            cur,
                        ));
                    }
                },
                None => {
                    proof {
                        assert(crate::flock::registry_view(configs@) =~= apply_target_at(
                            rv_before,
                            acts0[i as int].0,
                            cur,
                        ));
                    }
                },
            }
            if !a.finished() {
                let ghost before = anims_view(new_active@);
                new_active.push((self.active[i].0.clone(), a));
                proof {
                    assert(anims_view(new_active@) =~= before.push((acts0[i as int].0, a)));
                }
            }
            i = i + 1;
        }
        self.active = new_active;
    }
}

} // verus!
