//! Per-species tuning parameters.
//!
//! Every agent belongs to a species, and every species carries one
//! [`BirdConfig`]: its spawn weight, perception and separation radii, the
//! three steering gains, speed/force limits, render size and color. All
//! fields but the spawn weight are fixed-point values (see [`crate::fixed`]).

use vstd::prelude::*;

use crate::fixed::FX_ONE;

verus! {

/// Largest accepted perception radius, in fixed-point units (2^29, about
/// 8192 world units). Radii beyond this could overflow the spatial index's
/// 64-bit distance arithmetic.
pub const MAX_PERCEPTION_RADIUS: i64 = 0x2000_0000;

/// Largest accepted render size (2^27, about 2048 world units). Together
/// with the viewport bound it keeps wrapped positions within the range the
/// spatial index accepts.
pub const MAX_BIRD_SIZE: i64 = 0x800_0000;

/// The tuning parameters of one species.
#[derive(Clone)]
pub struct BirdConfig {
    /// The species id this config was created for.
    pub id: String,
    /// Relative probability mass used by weighted spawning.
    pub probability: i32,
    /// Radius of the neighborhood query feeding the steering rules.
    pub neighbor_distance: i64,
    /// Neighbors closer than this contribute to the separation rule.
    pub desired_separation: i64,
    pub separation_multiplier: i64,
    pub alignment_multiplier: i64,
    pub cohesion_multiplier: i64,
    /// Velocity magnitude cap.
    pub max_speed: i64,
    /// Steering-force magnitude cap.
    pub max_force: i64,
    /// Render size of the triangle drawn for an agent.
    pub bird_size: i64,
    /// Color channels, fixed-point values in `[0, 1]`.
    pub color_r: i64,
    pub color_g: i64,
    pub color_b: i64,
}

/// The mathematical value of a [`BirdConfig`].
pub struct BirdConfigV {
    pub id: Seq<char>,
    pub probability: int,
    pub neighbor_distance: int,
    pub desired_separation: int,
    pub separation_multiplier: int,
    pub alignment_multiplier: int,
    pub cohesion_multiplier: int,
    pub max_speed: int,
    pub max_force: int,
    pub bird_size: int,
    pub color_r: int,
    pub color_g: int,
    pub color_b: int,
}

impl View for BirdConfig {
    type V = BirdConfigV;

    open spec fn view(&self) -> BirdConfigV {
        BirdConfigV {
            id: self.id@,
            probability: self.probability as int,
            neighbor_distance: self.neighbor_distance as int,
            desired_separation: self.desired_separation as int,
            separation_multiplier: self.separation_multiplier as int,
            alignment_multiplier: self.alignment_multiplier as int,
            cohesion_multiplier: self.cohesion_multiplier as int,
            max_speed: self.max_speed as int,
            max_force: self.max_force as int,
            bird_size: self.bird_size as int,
            color_r: self.color_r as int,
            color_g: self.color_g as int,
            color_b: self.color_b as int,
        }
    }
}

/// A config the engine accepts into its registry: the two geometric
/// fields stay within the ranges the spatial index's arithmetic supports,
/// and the color channels are genuine `[0, 1]` fractions, so the emitted
/// color buffer is too.
pub open spec fn cfg_wf(c: BirdConfigV) -> bool {
    &&& 0 <= c.neighbor_distance <= MAX_PERCEPTION_RADIUS
    &&& 0 <= c.bird_size <= MAX_BIRD_SIZE
    &&& 0 <= c.color_r <= FX_ONE
    &&& 0 <= c.color_g <= FX_ONE
    &&& 0 <= c.color_b <= FX_ONE
}

impl BirdConfig {
    /// The species id this config was created with.
    pub fn id(&self) -> (r: String)
        ensures
            r@ == self@.id,
    {
        self.id.clone()
    }

    /// Replace the stored species id.
    pub fn set_id(&mut self, id: String)
        ensures
            final(self)@ == (BirdConfigV { id: id@, ..old(self)@ }),
    {
        self.id = id;
    }

    /// Bundle up the parameters of one species.
    pub fn new(
        id: String,
        probability: i32,
        neighbor_distance: i64,
        desired_separation: i64,
        separation_multiplier: i64,
        alignment_multiplier: i64,
        cohesion_multiplier: i64,
        max_speed: i64,
        max_force: i64,
        bird_size: i64,
        color_r: i64,
        color_g: i64,
        color_b: i64,
    ) -> (r: BirdConfig)
        ensures
            r@ == (BirdConfigV {
                id: id@,
                probability: probability as int,
                neighbor_distance: neighbor_distance as int,
                desired_separation: desired_separation as int,
                separation_multiplier: separation_multiplier as int,
                alignment_multiplier: alignment_multiplier as int,
                cohesion_multiplier: cohesion_multiplier as int,
                max_speed: max_speed as int,
                max_force: max_force as int,
                bird_size: bird_size as int,
                color_r: color_r as int,
                color_g: color_g as int,
                color_b: color_b as int,
            }),
    {
        BirdConfig {
            id,
            probability,
            neighbor_distance,
            desired_separation,
            separation_multiplier,
            alignment_multiplier,
            cohesion_multiplier,
            max_speed,
            max_force,
            bird_size,
            color_r,
            color_g,
            color_b,
        }
    }
}

} // verus!
