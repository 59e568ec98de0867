//! A deterministic 2-D flocking ("boids") simulation engine.
//!
//! Many agents ("birds") move under three local steering rules — separation,
//! alignment and cohesion — computed against a spatial index that is rebuilt
//! once per simulation step. Agents are grouped into species, each with its
//! own tunable parameters; a population manager enforces a maximum flock size
//! with random eviction and weighted spawning, and an interpolation subsystem
//! periodically randomizes species parameters and blends them in smoothly.
//!
//! All quantities are fixed-point numbers: a signed 64-bit integer holding
//! the value scaled by 2^16 (see [`fixed`]). Arithmetic saturates instead of
//! wrapping, so every operation is total and exactly specified.

pub mod animation;
pub mod bird;
pub mod bird_config;
pub mod fixed;
pub mod flock;
pub mod laws;
pub mod rng;
pub mod spatial;
pub mod vec2;

pub use fixed::lerp;
pub use fixed::lerp_u8;
