//! Fixed musical-time constants and the record of one observed hit.
//!
//! All positions are in beat units: `UNITS_PER_BEAT` units make one beat, so
//! fractional beat positions are exact integers and comparisons against the
//! scoring margins never suffer boundary flicker.

use vstd::prelude::*;

use crate::clock;
use crate::voices::Instrument;

verus! {

/// Beat units per beat: the fixed-point scale of all positions and margins.
pub const UNITS_PER_BEAT: i64 = 1000;

/// Length of one loop repetition, in beat units (16 beats).
///
/// A tick position `t` is at beat `t % BEATS_PER_LOOP` of loop number
/// `t / BEATS_PER_LOOP`.
pub const BEATS_PER_LOOP: i64 = 16 * UNITS_PER_BEAT;

/// How far past the current tick each scheduling pass reaches, in beat units.
pub const TICK_SCHEDULE_AHEAD: i64 = 2 * UNITS_PER_BEAT;

/// Tempo bounds and the tempo a fresh engine starts at, in beats per minute.
pub const DEFAULT_BPM: i64 = 60;

/// Lowest tempo a caller can set, in beats per minute.
pub const MIN_BPM: i64 = 40;

/// Highest tempo a caller can set, in beats per minute.
pub const MAX_BPM: i64 = 240;

/// Largest tick or beat position the engine accepts, leaving headroom so
/// that window arithmetic and distance computations cannot overflow `i64`.
pub const MAX_TICK: i64 = 0x1fff_ffff_ffff_ffff;

/// One observed strike of an instrument, at an absolute clock tick
/// (beat units; already corrected for input processing delay).
#[derive(Clone, Copy, Debug, PartialEq, Eq, Structural)]
pub struct UserHit {
    pub instrument: Instrument,
    pub clock_tick: i64,
}

impl UserHit {
    pub fn new(instrument: Instrument, clock_tick: i64) -> (r: UserHit)
        ensures
            r.instrument == instrument,
            r.clock_tick == clock_tick,
    {
        UserHit { instrument, clock_tick }
    }

    /// The hit's beat position within its loop: `clock_tick % BEATS_PER_LOOP`,
    /// with the remainder taken toward zero for (rare) negative ticks.
    pub fn beat(&self) -> (r: i64)
        requires
            -MAX_TICK <= self.clock_tick <= MAX_TICK,
        ensures
            r == clock::trunc_rem(self.clock_tick as int, BEATS_PER_LOOP as int),
            -BEATS_PER_LOOP < r < BEATS_PER_LOOP,
            self.clock_tick >= 0 ==> r == self.clock_tick as int % (BEATS_PER_LOOP as int),
    {
        clock::rem_toward_zero(self.clock_tick, BEATS_PER_LOOP)
    }
}

} // verus!
