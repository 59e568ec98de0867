//! The deterministic pseudo-random generator.
//!
//! One seeded 32-bit PCG generator (`oorandom::Rand32`) drives every random
//! choice of the engine: spawn velocities, eviction, weighted species
//! selection and randomized interpolation targets. The engine holds the
//! generator's plain `(u64, u64)` state and threads it through these
//! wrappers, so each draw is a named function of the state and a run is
//! reproducible from its seed. Nothing beyond the documented output range is
//! assumed about the drawn values.
//!
//! The second half of the pair is the generator's increment. Seeding always
//! produces an odd increment, every draw preserves it, and the ranged draw
//! demands it: with an even increment the generator can collapse to a fixed
//! point (state 0, increment 0 yields 0 forever) and the ranged draw's
//! rejection loop would then never exit.

use vstd::prelude::*;

use crate::fixed::FX_ONE;

verus! {

/// The state of a freshly seeded generator.
pub uninterp spec fn rand32_seeded(seed: u64) -> (u64, u64);

/// One draw of a full 32-bit value: the output and the follow-on state.
pub uninterp spec fn rand32_next(state: (u64, u64)) -> (u32, (u64, u64));

/// One draw from `lo ..< hi`: the output and the follow-on state.
pub uninterp spec fn rand32_next_range(state: (u64, u64), lo: u32, hi: u32) -> (u32, (u64, u64));

/// Relies on `oorandom::Rand32::new` and `state`: seeding is deterministic,
/// `state` exposes the generator's `(state, increment)` pair, and the
/// increment is forced odd (`(increment << 1) | 1`).
#[verifier::external_body]
pub(crate) fn rng_seed(seed: u64) -> (r: (u64, u64))
    ensures
        r == rand32_seeded(seed),
        r.1 % 2 == 1,
{
    oorandom::Rand32::new(seed).state()
}

/// A properly seeded generator state for the given seed, for a host that
/// drives the interpolation subsystem with its own generator.
pub fn seeded_state(seed: u64) -> (r: (u64, u64))
    ensures
        r == rand32_seeded(seed),
        r.1 % 2 == 1,
{
    rng_seed(seed)
}

/// Relies on `oorandom::Rand32::rand_u32` (with `from_state`/`state` for
/// the round trip): the draw is a pure function of the generator state,
/// and the step never writes the increment.
#[verifier::external_body]
pub(crate) fn rng_u32(state: (u64, u64)) -> (r: (u32, (u64, u64)))
    ensures
        r == rand32_next(state),
        r.1.1 == state.1,
{
    let mut g = oorandom::Rand32::from_state(state);
    let v = g.rand_u32();
    (v, g.state())
}

/// Relies on `oorandom::Rand32::rand_range` (with `from_state`/`state` for
/// the round trip): the draw is a pure function of the state and the range,
/// lands inside `lo ..< hi`, and never writes the increment. An empty range
/// would trip the function's own debug assertion, and an even increment can
/// make its rejection loop spin forever on a collapsed generator, so both
/// are ruled out here.
#[verifier::external_body]
pub(crate) fn rng_range(state: (u64, u64), lo: u32, hi: u32) -> (r: (u32, (u64, u64)))
    requires
        lo < hi,
        state.1 % 2 == 1,
    ensures
        r == rand32_next_range(state, lo, hi),
        lo <= r.0 < hi,
        r.1.1 == state.1,
{
    let mut g = oorandom::Rand32::from_state(state);
    let v = g.rand_range(lo..hi);
    (v, g.state())
}

/// What [`rng_unit`] returns: a fixed-point draw in `[0, 1)`.
pub open spec fn rand32_next_unit(state: (u64, u64)) -> (i64, (u64, u64)) {
    let d = rand32_next_range(state, 0, FX_ONE as u32);
    (d.0 as i64, d.1)
}

/// Draw a fixed-point value in `[0, 1)`, the stand-in for a unit float draw.
pub(crate) fn rng_unit(state: (u64, u64)) -> (r: (i64, (u64, u64)))
    requires
        state.1 % 2 == 1,
    ensures
        r == rand32_next_unit(state),
        0 <= r.0 < FX_ONE,
        r.1.1 == state.1,
{
    let d: (u32, (u64, u64)) = rng_range(state, 0, FX_ONE as u32);
    (d.0 as i64, d.1)
}

} // verus!
