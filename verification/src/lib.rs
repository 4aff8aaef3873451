//! A small entity-component simulation kernel for a 2-D arcade shooter.
//!
//! The crate owns entity identity (slot plus generation), per-type component
//! tables, a publish/subscribe event log with per-consumer cursors, timers,
//! staged per-tick scheduling with deferred structural mutation, and an
//! axis-aligned bounding-box collision pass feeding a damage/death pipeline.
//!
//! All quantities are fixed-point integers: time deltas and timer durations
//! are in abstract time units, positions and speeds in abstract space units.

pub mod collision;
pub mod components;
pub mod events;
pub mod resolver;
pub mod store;
pub mod systems;
pub mod timer;
pub mod world;

use vstd::prelude::*;

verus! {

/// The kernel never panics: saturating arithmetic backs every position and
/// health update. Clamp a wide intermediate value into the `i64` range.
pub open spec fn clamp_i64(v: int) -> int {
    if v < i64::MIN { i64::MIN as int } else if v > i64::MAX { i64::MAX as int } else { v }
}

/// The exact product of a speed and a time delta, carried in the wide type
/// so that no pair of inputs can overflow.
pub fn speed_times_delta(speed: i32, dt: u32) -> (r: i128)
    ensures
        r as int == speed * dt,
        -0x8000_0000_0000_0000 <= r as int <= 0x8000_0000_0000_0000,
{
    proof {
        assert((speed as int) * (dt as int) <= 0x8000_0000_0000_0000 && (speed as int) * (
        dt as int) >= -0x8000_0000_0000_0000) by (nonlinear_arith)
            requires
                -0x8000_0000 <= speed as int <= 0x7fff_ffff,
                0 <= dt as int <= 0xffff_ffff,
        ;
    }
    (speed as i128) * (dt as i128)
}

/// Saturating conversion of a wide intermediate result to `i64`.
pub fn clamp_wide(v: i128) -> (r: i64)
    ensures
        r as int == clamp_i64(v as int),
{
    if v < i64::MIN as i128 {
        i64::MIN
    } else if v > i64::MAX as i128 {
        i64::MAX
    } else {
        v as i64
    }
}

} // verus!
