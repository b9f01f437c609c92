//! Rhythm timing and accuracy engine for a loop-based percussion trainer.
//!
//! A fixed pattern of notes repeats on a monotonically advancing tick clock.
//! The engine schedules each note ahead of time on that clock (handling the
//! wrap from the end of one loop repetition to the start of the next), scores
//! observed hits against the expected notes under latency-aware margins, and
//! keeps a rolling calibration window for estimating audio latency.
//!
//! All musical time is measured in integer beat units: one beat is
//! `consts::UNITS_PER_BEAT` units, so positions and margins are exact and
//! free of floating-point boundary flicker.

pub mod clock;
pub mod consts;
pub mod engine;
pub mod schedule;
pub mod score;
pub mod voices;
