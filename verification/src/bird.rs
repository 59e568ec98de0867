//! One agent and its per-step force model.
//!
//! Each step, an agent accumulates separation, alignment and cohesion
//! steering forces over its capped neighbor list, integrates them with a
//! half-step scheme, and wraps around the inflated viewport bounds. All of
//! it is saturating fixed-point arithmetic; zero-length vectors skip
//! normalization instead of producing an undefined direction.

use vstd::prelude::*;

use crate::bird_config::BirdConfig;
use crate::bird_config::BirdConfigV;
use crate::fixed::FX_HALF;
use crate::fixed::FX_ONE;
use crate::fixed::fx_div;
use crate::fixed::fx_mul;
use crate::fixed::fx_sub;
use crate::fixed::sat_add;
use crate::fixed::sat_div;
use crate::fixed::sat_mul;
use crate::fixed::sat_sub;
use crate::vec2::Vec2;
use crate::vec2::clamp_magnitude;
use crate::vec2::vs_add;
use crate::vec2::vs_clamp_mag;
use crate::vec2::vs_div_count;
use crate::vec2::vs_mag;
use crate::vec2::vs_norm;
use crate::vec2::vs_scale;
use crate::vec2::vs_sub;

verus! {

/// At most this many neighbors feed one agent's force computation, whatever
/// the neighborhood query returned; the cap bounds per-agent cost in dense
/// clusters.
pub const NEIGHBOR_CAP: usize = 30;

/// The wrap boundary is the viewport scaled by 1.1 (fixed-point).
pub const FX_BORDER: i64 = 72089;

/// 1.5 in fixed-point: the inflation factor of an agent's render radius.
pub const FX_3_HALVES: i64 = 98304;

/// 1 / sqrt(3) in fixed-point: the triangle's corner radius per unit size.
pub const FX_INV_SQRT3: i64 = 37837;

/// cos(2.4) in fixed-point: the spread angle of the triangle's back corners.
pub const FX_COS_SPREAD: i64 = -48326;

/// sin(2.4) in fixed-point.
pub const FX_SIN_SPREAD: i64 = 44268;

/// One simulated agent.
#[derive(Clone)]
pub struct Bird {
    pub position: Vec2,
    pub velocity: Vec2,
    /// Reset and recomputed on every step.
    pub acceleration: Vec2,
    /// The id of the species whose config steers this agent.
    pub config_id: String,
}

/// The mathematical value of a [`Bird`].
pub struct BirdV {
    pub position: (int, int),
    pub velocity: (int, int),
    pub acceleration: (int, int),
    pub config_id: Seq<char>,
}

impl View for Bird {
    type V = BirdV;

    open spec fn view(&self) -> BirdV {
        BirdV {
            position: self.position@,
            velocity: self.velocity@,
            acceleration: self.acceleration@,
            config_id: self.config_id@,
        }
    }
}

/// A neighbor as the force model sees it: position and velocity.
pub open spec fn pairs_view(s: Seq<(Vec2, Vec2)>) -> Seq<((int, int), (int, int))> {
    s.map_values(|p: (Vec2, Vec2)| (p.0@, p.1@))
}

/// The separation contribution of one neighbor at distance `d > 0`: the
/// unit vector away from it, weighted by the inverse square of the
/// distance. A squared distance that truncates to zero on the fixed-point
/// grid is read as the smallest positive value.
pub open spec fn sep_contribution(away: (int, int), d: int) -> (int, int) {
    let sq = if sat_mul(d, d) > 0 {
        sat_mul(d, d)
    } else {
        1
    };
    (sat_div(vs_norm(away).0, sq), sat_div(vs_norm(away).1, sq))
}

/// One pass over the neighbor list: the summed separation steering, the
/// summed neighbor velocities, the negated sum of neighbor positions, and
/// how many neighbors contributed to separation.
pub open spec fn accum(
    me: (int, int),
    sep_radius: int,
    ns: Seq<((int, int), (int, int))>,
) -> ((int, int), (int, int), (int, int), int)
    decreases ns.len(),
{
    if ns.len() == 0 {
        ((0int, 0int), (0int, 0int), (0int, 0int), 0int)
    } else {
        let prev = accum(me, sep_radius, ns.drop_last());
        let n = ns.last();
        let ali = vs_add(prev.1, n.1);
        let coh = vs_sub(prev.2, n.0);
        let d = vs_mag(vs_sub(me, n.0));
        if 0 < d && d <= sep_radius {
            (vs_add(prev.0, sep_contribution(vs_sub(me, n.0), d)), ali, coh, prev.3 + 1)
        } else {
            (prev.0, ali, coh, prev.3)
        }
    }
}

/// The "steer toward desired velocity" pattern shared by all three rules:
/// normalize the raw sum, scale it to the species' top speed, subtract the
/// current velocity and clamp the result to the species' force limit. A
/// zero-length sum carries no direction and is passed through.
pub open spec fn steer(sum: (int, int), vel: (int, int), max_speed: int, max_force: int) -> (
    int,
    int,
) {
    if vs_mag(sum) > 0 {
        vs_clamp_mag(vs_sub(vs_scale(vs_norm(sum), max_speed), vel), max_force)
    } else {
        sum
    }
}

/// The raw acceleration of an agent from a non-empty capped neighbor list:
/// the three steering rules, each weighted by its species multiplier.
pub open spec fn bird_forces(
    me_pos: (int, int),
    me_vel: (int, int),
    ns: Seq<((int, int), (int, int))>,
    cfg: BirdConfigV,
) -> (int, int) {
    let a = accum(me_pos, cfg.desired_separation, ns);
    let n = ns.len() as int;
    let sep0 = if a.3 > 0 {
        vs_div_count(a.0, a.3)
    } else {
        a.0
    };
    let sep = steer(sep0, me_vel, cfg.max_speed, cfg.max_force);
    let ali = steer(vs_div_count(a.1, n), me_vel, cfg.max_speed, cfg.max_force);
    let coh = steer(vs_sub(vs_div_count(a.2, n), me_pos), me_vel, cfg.max_speed, cfg.max_force);
    vs_add(
        vs_add(vs_scale(sep, cfg.separation_multiplier), vs_scale(ali, cfg.alignment_multiplier)),
        vs_scale(coh, cfg.cohesion_multiplier),
    )
}

/// Teleport a coordinate that has left the inflated viewport on one side to
/// the opposite edge (wrap-around, not reflection). `half` is half the
/// 110%-scaled extent, `r` the inflated render radius.
pub open spec fn wrap_coord(x: int, half: int, r: int) -> int {
    let x1 = if sat_add(x, r) < sat_sub(0, half) {
        sat_sub(half, r)
    } else {
        x
    };
    if sat_add(x1, r) > half {
        sat_add(sat_sub(0, half), r)
    } else {
        x1
    }
}

/// Wherever a coordinate starts, wrapping leaves it within the inflated
/// viewport: at most `half + r` from the center on either side.
pub proof fn lemma_wrap_coord_bounded(x: int, half: int, r: int)
    requires
        i64::MIN <= x <= i64::MAX,
        0 <= half,
        0 <= r,
        half + r <= i64::MAX,
    ensures
        -(half + r) <= wrap_coord(x, half, r) <= half + r,
{
}

/// Half the 110%-scaled viewport extent.
pub open spec fn half_extent(w: int) -> int {
    sat_mul(sat_mul(w, FX_BORDER as int), FX_HALF as int)
}

/// The inflated render radius of a species.
pub open spec fn inflated_radius(bird_size: int) -> int {
    sat_mul(bird_size, FX_3_HALVES as int)
}

/// Wrap a position around the inflated viewport bounds.
pub open spec fn wrap_position(p: (int, int), bird_size: int, width: int, height: int) -> (
    int,
    int,
) {
    (
        wrap_coord(p.0, half_extent(width), inflated_radius(bird_size)),
        wrap_coord(p.1, half_extent(height), inflated_radius(bird_size)),
    )
}

/// Direction of travel as a unit vector; an agent at rest points along the
/// positive x axis.
pub open spec fn heading(vel: (int, int)) -> (int, int) {
    if vs_mag(vel) == 0 {
        (FX_ONE as int, 0int)
    } else {
        vs_norm(vel)
    }
}

/// The heading turned by the spread angle (counterclockwise).
pub open spec fn turned_plus(u: (int, int)) -> (int, int) {
    (
        sat_sub(sat_mul(u.0, FX_COS_SPREAD as int), sat_mul(u.1, FX_SIN_SPREAD as int)),
        sat_add(sat_mul(u.0, FX_SIN_SPREAD as int), sat_mul(u.1, FX_COS_SPREAD as int)),
    )
}

/// The heading turned by the spread angle (clockwise).
pub open spec fn turned_minus(u: (int, int)) -> (int, int) {
    (
        sat_add(sat_mul(u.0, FX_COS_SPREAD as int), sat_mul(u.1, FX_SIN_SPREAD as int)),
        sat_sub(sat_mul(u.1, FX_COS_SPREAD as int), sat_mul(u.0, FX_SIN_SPREAD as int)),
    )
}

/// The triangle for an agent: a nose vertex ahead of the position along the
/// heading, and two back corners spread symmetrically behind it.
pub open spec fn tri_vertices(pos: (int, int), vel: (int, int), bird_size: int) -> (
    (int, int),
    (int, int),
    (int, int),
) {
    let u = heading(vel);
    let r = sat_mul(bird_size, FX_INV_SQRT3 as int);
    (
        vs_add(vs_scale(u, sat_mul(r, FX_3_HALVES as int)), pos),
        vs_add(vs_scale(turned_plus(u), r), pos),
        vs_add(vs_scale(turned_minus(u), r), pos),
    )
}

/// The capped neighbor list: the first [`NEIGHBOR_CAP`] entries.
pub open spec fn capped(ns: Seq<((int, int), (int, int))>) -> Seq<((int, int), (int, int))> {
    if ns.len() <= NEIGHBOR_CAP {
        ns
    } else {
        ns.take(NEIGHBOR_CAP as int)
    }
}

/// One whole agent step: reset the acceleration, accumulate the three
/// steering forces over the capped neighbors, clamp, integrate with the
/// half-step scheme, clamp the velocity, advance the position and wrap it.
#[verifier::opaque]
pub open spec fn bird_step(
    b: BirdV,
    ns: Seq<((int, int), (int, int))>,
    cfg: BirdConfigV,
    width: int,
    height: int,
    dt: int,
) -> BirdV {
    let cn = capped(ns);
    let acc0 = if cn.len() == 0 {
        (0int, 0int)
    } else {
        bird_forces(b.position, b.velocity, cn, cfg)
    };
    let acc = vs_clamp_mag(acc0, cfg.max_force);
    let kick = vs_scale(vs_scale(acc, sat_mul(dt, dt)), FX_HALF as int);
    let vel = vs_clamp_mag(vs_add(b.velocity, kick), cfg.max_speed);
    let pos = vs_add(b.position, vs_scale(vel, dt));
    BirdV {
        position: wrap_position(pos, cfg.bird_size, width, height),
        velocity: vel,
        acceleration: acc,
        config_id: b.config_id,
    }
}

/// The shared steering pipeline, executable form.
fn steer_from(sum: Vec2, vel: Vec2, max_speed: i64, max_force: i64) -> (r: Vec2)
    ensures
        r@ == steer(sum@, vel@, max_speed as int, max_force as int),
{
    if sum.magnitude() > 0 {
        let mut s = sum.normalized().scale(max_speed).minus(vel);
        clamp_magnitude(&mut s, max_force);
        s
    } else {
        sum
    }
}

impl Bird {
    /// Update this agent's forces and physics in a single pass over the
    /// (already queried) neighbors; at most [`NEIGHBOR_CAP`] of them
    /// contribute. `width` and `height` are the viewport extents used for
    /// wrapping, `time_step` the frame delta — all fixed-point.
    pub fn update_bird(
        &mut self,
        neighbors: &Vec<(Vec2, Vec2)>,
        bird_config: &BirdConfig,
        width: i64,
        height: i64,
        time_step: i64,
    )
        ensures
            final(self)@ == bird_step(
                old(self)@,
                pairs_view(neighbors@),
                bird_config@,
                width as int,
                height as int,
                time_step as int,
            ),
    {
        proof {
            reveal(bird_step);
        }
        self.acceleration = Vec2::zero();

        let cap: usize = if neighbors.len() < NEIGHBOR_CAP {
            neighbors.len()
        } else {
            NEIGHBOR_CAP
        };
        proof {
            assert(pairs_view(neighbors@).take(cap as int) =~= capped(pairs_view(neighbors@)));
        }

        if cap > 0 {
            let mut sep = Vec2::zero();
            let mut ali = Vec2::zero();
            let mut coh = Vec2::zero();
            let mut cnt: i64 = 0;
            let mut i: usize = 0;
            while i < cap
                invariant
                    i <= cap <= neighbors.len(),
                    cap <= NEIGHBOR_CAP,
                    0 <= cnt <= i,
                    (sep@, ali@, coh@, cnt as int) == accum(
                        old(self).position@,
                        bird_config.desired_separation as int,
                        pairs_view(neighbors@).take(i as int),
                    ),
                    self.position == old(self).position,
                    self.velocity == old(self).velocity,
                decreases cap - i,
            {
                let ghost prefix = pairs_view(neighbors@).take(i as int);
                let other_pos: Vec2 = neighbors[i].0;
                let other_vel: Vec2 = neighbors[i].1;
                ali = ali.plus(other_vel);
                coh = coh.minus(other_pos);
                let away: Vec2 = self.position.minus(other_pos);
                let d: i64 = away.magnitude();
                if 0 < d && d <= bird_config.desired_separation {
                    let sqd: i64 = fx_mul(d, d);
                    let sq: i64 = if sqd > 0 {
                        sqd
                    } else {
                        1
                    };
                    let unit: Vec2 = away.normalized();
                    let weighted = Vec2 { x: fx_div(unit.x, sq), y: fx_div(unit.y, sq) };
                    sep = sep.plus(weighted);
                    cnt = cnt + 1;
                }
                i = i + 1;
                proof {
                    let full = pairs_view(neighbors@);
                    assert(full.take(i as int).drop_last() =~= prefix);
                    assert(full.take(i as int).last() == full[i - 1]);
                }
            }

            let n: i64 = cap as i64;
            if cnt > 0 {
                sep = sep.div_count(cnt);
            }
            sep = steer_from(sep, self.velocity, bird_config.max_speed, bird_config.max_force);
            ali = ali.div_count(n);
            ali = steer_from(ali, self.velocity, bird_config.max_speed, bird_config.max_force);
            coh = coh.div_count(n).minus(self.position);
            coh = steer_from(coh, self.velocity, bird_config.max_speed, bird_config.max_force);

            self.acceleration = self
                .acceleration
                .plus(sep.scale(bird_config.separation_multiplier))
                .plus(ali.scale(bird_config.alignment_multiplier))
                .plus(coh.scale(bird_config.cohesion_multiplier));
        }

        clamp_magnitude(&mut self.acceleration, bird_config.max_force);
        let dt2: i64 = fx_mul(time_step, time_step);
        self.velocity = self.velocity.plus(self.acceleration.scale(dt2).scale(FX_HALF));
        clamp_magnitude(&mut self.velocity, bird_config.max_speed);
        self.position = self.position.plus(self.velocity.scale(time_step));

        self.borders(bird_config, width, height);
    }

    /// The three corner vertices of the triangle drawn for this agent,
    /// nose first, oriented along its velocity heading.
    pub fn get_vertices(&self, bird_config: &BirdConfig) -> (r: (Vec2, Vec2, Vec2))
        ensures
            (r.0@, r.1@, r.2@) == tri_vertices(
                self@.position,
                self@.velocity,
                bird_config@.bird_size,
            ),
    {
        let u: Vec2 = if self.velocity.magnitude() == 0 {
            Vec2 { x: FX_ONE, y: 0 }
        } else {
            self.velocity.normalized()
        };
        let r: i64 = fx_mul(bird_config.bird_size, FX_INV_SQRT3);
        let fwd = Vec2 {
            x: fx_sub(fx_mul(u.x, FX_COS_SPREAD), fx_mul(u.y, FX_SIN_SPREAD)),
            y: crate::fixed::fx_add(fx_mul(u.x, FX_SIN_SPREAD), fx_mul(u.y, FX_COS_SPREAD)),
        };
        let back = Vec2 {
            x: crate::fixed::fx_add(fx_mul(u.x, FX_COS_SPREAD), fx_mul(u.y, FX_SIN_SPREAD)),
            y: fx_sub(fx_mul(u.y, FX_COS_SPREAD), fx_mul(u.x, FX_SIN_SPREAD)),
        };
        (
            u.scale(fx_mul(r, FX_3_HALVES)).plus(self.position),
            fwd.scale(r).plus(self.position),
            back.scale(r).plus(self.position),
        )
    }

    /// Wrap-around boundary handling against the 110%-scaled viewport.
    fn borders(&mut self, bird_config: &BirdConfig, width: i64, height: i64)
        ensures
            final(self)@ == (BirdV {
                position: wrap_position(
                    old(self).position@,
                    bird_config.bird_size as int,
                    width as int,
                    height as int,
                ),
                ..old(self)@
            }),
    {
        let half_w: i64 = fx_mul(fx_mul(width, FX_BORDER), FX_HALF);
        let half_h: i64 = fx_mul(fx_mul(height, FX_BORDER), FX_HALF);
        let r: i64 = fx_mul(bird_config.bird_size, FX_3_HALVES);
        if fx_add_is_lt(self.position.x, r, half_w) {
            self.position.x = fx_sub(half_w, r);
        }
        if fx_add_is_lt(self.position.y, r, half_h) {
            self.position.y = fx_sub(half_h, r);
        }
        if fx_add_is_gt(self.position.x, r, half_w) {
            self.position.x = neg_plus(half_w, r);
        }
        if fx_add_is_gt(self.position.y, r, half_h) {
            self.position.y = neg_plus(half_h, r);
        }
    }
}

/// Whether `x + r` (saturating) has left the low side of `[-half, _]`.
fn fx_add_is_lt(x: i64, r: i64, half: i64) -> (b: bool)
    ensures
        b == (sat_add(x as int, r as int) < sat_sub(0, half as int)),
{
    crate::fixed::fx_add(x, r) < fx_sub(0, half)
}

/// Whether `x + r` (saturating) has passed `half` on the high side.
fn fx_add_is_gt(x: i64, r: i64, half: i64) -> (b: bool)
    ensures
        b == (sat_add(x as int, r as int) > half),
{
    crate::fixed::fx_add(x, r) > half
}

/// `-half + r`, saturating.
fn neg_plus(half: i64, r: i64) -> (v: i64)
    ensures
        v as int == sat_add(sat_sub(0, half as int), r as int),
{
    crate::fixed::fx_add(fx_sub(0, half), r)
}

} // verus!
