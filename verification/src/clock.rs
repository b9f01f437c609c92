//! Tick-clock arithmetic: beat-within-loop, loop index, tempo clamping and
//! unit conversions.
//!
//! The host advances an absolute tick position (in beat units) at a rate
//! proportional to the tempo; everything here is pure arithmetic on that
//! position, so scheduling and scoring agree on what "beat" and "loop" mean.

use vstd::prelude::*;

use crate::consts::{BEATS_PER_LOOP, MAX_BPM, MAX_TICK, MIN_BPM};

verus! {

/// Quotient of `a / b` rounded toward zero (the C and Rust convention),
/// as opposed to the Euclidean `/` of specifications.
pub open spec fn trunc_div(a: int, b: int) -> int {
    if a >= 0 {
        a / b
    } else {
        -((-a) / b)
    }
}

/// Remainder of `a / b` with the sign of `a` (the C and Rust convention),
/// as opposed to the Euclidean `%` of specifications.
pub open spec fn trunc_rem(a: int, b: int) -> int {
    if a >= 0 {
        a % b
    } else {
        -((-a) % b)
    }
}

/// Quotient rounded toward zero.
pub fn div_toward_zero(a: i64, b: i64) -> (r: i64)
    requires
        b > 0,
        a > i64::MIN,
    ensures
        r == trunc_div(a as int, b as int),
{
    if a >= 0 {
        a / b
    } else {
        -((-a) / b)
    }
}

/// Remainder with the sign of the dividend.
pub fn rem_toward_zero(a: i64, b: i64) -> (r: i64)
    requires
        b > 0,
        a > i64::MIN,
    ensures
        r == trunc_rem(a as int, b as int),
        -b < r < b,
        a >= 0 ==> r == a as int % (b as int),
{
    if a >= 0 {
        a % b
    } else {
        -((-a) % b)
    }
}

/// The beat position within the current loop: `tick % BEATS_PER_LOOP`.
pub fn beat_of_tick(tick: i64) -> (r: i64)
    requires
        0 <= tick,
    ensures
        r == tick as int % (BEATS_PER_LOOP as int),
        0 <= r < BEATS_PER_LOOP,
{
    tick % BEATS_PER_LOOP
}

/// The loop index the tick lies in: `tick / BEATS_PER_LOOP`.
pub fn loop_of_tick(tick: i64) -> (r: i64)
    requires
        0 <= tick,
    ensures
        r == tick as int / (BEATS_PER_LOOP as int),
        r >= 0,
{
    tick / BEATS_PER_LOOP
}

/// A tempo request clamped into `[MIN_BPM, MAX_BPM]`.
pub open spec fn clamp_bpm(bpm: int) -> int {
    if bpm < MIN_BPM {
        MIN_BPM as int
    } else if bpm > MAX_BPM {
        MAX_BPM as int
    } else {
        bpm
    }
}

/// An input processing delay, given in milliseconds, converted to beat units
/// at the given tempo: the clock runs at `2 * bpm` ticks per minute, so one
/// millisecond is `bpm / 30` thousandths of a tick.
pub open spec fn delay_units(delay_ms: int, bpm: int) -> int {
    delay_ms * bpm / 30
}

/// Converts a processing delay to beat units at the given tempo.
pub fn processing_delay_to_units(delay_ms: i64, bpm: i64) -> (r: i64)
    requires
        0 <= delay_ms,
        MIN_BPM <= bpm <= MAX_BPM,
        delay_ms * bpm <= i64::MAX,
    ensures
        r == delay_units(delay_ms as int, bpm as int),
        0 <= r <= delay_ms * bpm,
{
    (delay_ms * bpm) / 30
}

/// A signed span of beat units converted to milliseconds at the given tempo
/// (`units / UNITS_PER_BEAT` beats, at `bpm` beats per `60_000` ms), rounded
/// toward zero.
pub fn units_to_ms(units: i64, bpm: i64) -> (r: i64)
    requires
        MIN_BPM <= bpm <= MAX_BPM,
        -MAX_TICK < units * 60,
        units * 60 < MAX_TICK,
    ensures
        r == trunc_div(units * 60, bpm as int),
{
    let scaled: i64 = units * 60;
    div_toward_zero(scaled, bpm)
}

} // verus!
