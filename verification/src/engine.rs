//! The scheduling context: owned, explicitly passed state that ties the
//! tick clock, the lookahead scheduler, the hit history and the calibration
//! window together. The host advances the clock and performs audio and
//! input; every decision about *what* to schedule or record is made here.

use vstd::prelude::*;

use crate::clock::{
    beat_of_tick, clamp_bpm, delay_units, div_toward_zero, loop_of_tick, processing_delay_to_units,
    trunc_div,
};
use crate::consts::{
    BEATS_PER_LOOP, DEFAULT_BPM, MAX_BPM, MAX_TICK, MIN_BPM, TICK_SCHEDULE_AHEAD, UNITS_PER_BEAT,
    UserHit,
};
use crate::schedule::{schedule_audio, voice_requests, PlayRequest, Sound};
use crate::voices::{Instrument, Voices};

verus! {

/// Beat offsets of the metronome clicks: every other beat of the loop.
pub open spec fn metronome_notes_spec() -> Seq<i64> {
    seq![0i64, 2000i64, 4000i64, 6000i64, 8000i64, 10000i64, 12000i64, 14000i64]
}

/// Beat offsets of the metronome clicks: every other beat of the loop.
pub fn metronome_notes() -> (r: Vec<i64>)
    ensures
        r@ == metronome_notes_spec(),
        forall|i: int| 0 <= i < r@.len() ==> 0 <= #[trigger] r@[i] < BEATS_PER_LOOP,
{
    let mut v: Vec<i64> = Vec::new();
    v.push(0);
    v.push(2000);
    v.push(4000);
    v.push(6000);
    v.push(8000);
    v.push(10000);
    v.push(12000);
    v.push(14000);
    proof {
        assert(v@ =~= metronome_notes_spec());
    }
    v
}

/// The signed distance of a beat position from the nearest whole beat
/// (halfway rounds away from the position, so it is never more than half a
/// beat in magnitude).
pub open spec fn dist_from_nearest_beat(x: int) -> int
    recommends
        x >= 0,
{
    let m = x % (UNITS_PER_BEAT as int);
    if m < 500 {
        m
    } else {
        m - UNITS_PER_BEAT
    }
}

/// Sum of the distances of the calibration taps from their nearest whole
/// beats.
pub open spec fn cal_dist_sum(samples: Seq<i64>) -> int
    decreases samples.len(),
{
    if samples.len() == 0 {
        0
    } else {
        cal_dist_sum(samples.drop_last()) + dist_from_nearest_beat(samples.last() as int)
    }
}

/// The whole beat (0 to 15) a tick position lies in within its loop.
pub open spec fn whole_beat(tick: int) -> int {
    (tick % (BEATS_PER_LOOP as int)) / (UNITS_PER_BEAT as int)
}

/// All requests one scheduling pass over `(prev, next]` emits: each
/// instrument's notes in the fixed instrument order, then the metronome
/// clicks when the metronome is on.
pub open spec fn all_requests(voices: Voices, metronome: bool, prev: int, next: int) -> Seq<
    PlayRequest,
> {
    voice_requests(
        Sound::Instrument(Instrument::ClosedHihat),
        voices.beats_of(Instrument::ClosedHihat),
        prev,
        next,
    ) + voice_requests(
        Sound::Instrument(Instrument::Snare),
        voices.beats_of(Instrument::Snare),
        prev,
        next,
    ) + voice_requests(
        Sound::Instrument(Instrument::Kick),
        voices.beats_of(Instrument::Kick),
        prev,
        next,
    ) + voice_requests(
        Sound::Instrument(Instrument::OpenHihat),
        voices.beats_of(Instrument::OpenHihat),
        prev,
        next,
    ) + voice_requests(
        Sound::Instrument(Instrument::Ride),
        voices.beats_of(Instrument::Ride),
        prev,
        next,
    ) + voice_requests(
        Sound::Instrument(Instrument::Crash),
        voices.beats_of(Instrument::Crash),
        prev,
        next,
    ) + voice_requests(
        Sound::Instrument(Instrument::Tom1),
        voices.beats_of(Instrument::Tom1),
        prev,
        next,
    ) + voice_requests(
        Sound::Instrument(Instrument::Tom2),
        voices.beats_of(Instrument::Tom2),
        prev,
        next,
    ) + voice_requests(
        Sound::Instrument(Instrument::Tom3),
        voices.beats_of(Instrument::Tom3),
        prev,
        next,
    ) + voice_requests(
        Sound::Instrument(Instrument::PedalHiHat),
        voices.beats_of(Instrument::PedalHiHat),
        prev,
        next,
    ) + (if metronome {
        voice_requests(Sound::Metronome, metronome_notes_spec(), prev, next)
    } else {
        Seq::empty()
    })
}

/// One instrument's scheduling pass, with the note-range fact drawn from
/// the loop's well-formedness.
fn schedule_instrument(
    voices: &Voices,
    instrument: Instrument,
    last_scheduled_tick: i64,
    tick_to_schedule: i64,
) -> (r: Vec<PlayRequest>)
    requires
        voices.wf(),
        -BEATS_PER_LOOP < last_scheduled_tick <= MAX_TICK,
        -BEATS_PER_LOOP < tick_to_schedule <= MAX_TICK,
    ensures
        r@ == voice_requests(
            Sound::Instrument(instrument),
            voices.beats_of(instrument),
            last_scheduled_tick as int,
            tick_to_schedule as int,
        ),
{
    let notes = voices.get_instrument_beats(&instrument);
    proof {
        assert forall|i: int|
            0 <= i < notes@.len() implies 0 <= #[trigger] notes@[i] < BEATS_PER_LOOP by {
            assert(notes@[i] == voices.beats_of(instrument)[i]);
        }
    }
    schedule_audio(notes, Sound::Instrument(instrument), last_scheduled_tick, tick_to_schedule)
}

/// The engine's mutable state: the schedule boundary, tempo, metronome
/// switch, recorded hits, calibration taps and the configured latency
/// correction (in beat units).
pub struct Engine {
    /// Exclusive lower bound of the next scheduling window.
    pub last_scheduled_tick: i64,
    /// Current tempo in beats per minute, always within bounds.
    pub bpm: i64,
    /// Whether scheduling passes also emit metronome clicks.
    pub metronome_enabled: bool,
    /// Every hit recorded this session, in order.
    pub user_hits: Vec<UserHit>,
    /// The rolling window of calibration taps (beat positions).
    pub calibration_input: Vec<i64>,
    /// The latency correction applied to hits when scoring, in beat units.
    pub configured_audio_latency: i64,
    /// The whole beat most recently observed, for beat/loop transitions.
    pub last_beat: i64,
}

impl Engine {
    /// The state every method preserves: the schedule boundary stays in
    /// range (it starts one beat before tick zero so that beat-0 notes of
    /// the first loop are scheduled), the tempo stays within bounds, the
    /// calibration window stays small and its taps are beat positions, and
    /// recorded hit ticks stay within range.
    pub open spec fn wf(self) -> bool {
        &&& -UNITS_PER_BEAT <= self.last_scheduled_tick <= MAX_TICK
        &&& MIN_BPM <= self.bpm <= MAX_BPM
        &&& self.calibration_input@.len() <= 5
        &&& (forall|i: int|
            0 <= i < self.calibration_input@.len() ==> 0 <= #[trigger] self.calibration_input@[i]
                < BEATS_PER_LOOP)
        &&& (forall|i: int|
            0 <= i < self.user_hits@.len() ==> -MAX_TICK <= (#[trigger] self.user_hits@[i]).clock_tick
                <= MAX_TICK)
    }

    /// A fresh engine: nothing scheduled yet, default tempo, metronome off,
    /// no hits and no calibration taps.
    pub fn new(configured_audio_latency: i64) -> (r: Engine)
        ensures
            r.wf(),
            r.last_scheduled_tick == -UNITS_PER_BEAT,
            r.bpm == DEFAULT_BPM,
            r.metronome_enabled == false,
            r.user_hits@ == Seq::<UserHit>::empty(),
            r.calibration_input@ == Seq::<i64>::empty(),
            r.configured_audio_latency == configured_audio_latency,
            r.last_beat == -1,
    {
        Engine {
            last_scheduled_tick: -UNITS_PER_BEAT,
            bpm: DEFAULT_BPM,
            metronome_enabled: false,
            user_hits: Vec::new(),
            calibration_input: Vec::new(),
            configured_audio_latency,
            last_beat: -1,
        }
    }

    /// The configured latency correction, in beat units.
    pub fn get_configured_audio_latency(&self) -> (r: i64)
        ensures
            r == self.configured_audio_latency,
    {
        self.configured_audio_latency
    }

    /// Replaces the configured latency correction.
    pub fn set_configured_audio_latency(&mut self, latency: i64)
        ensures
            *final(self) == (Engine { configured_audio_latency: latency, ..*old(self) }),
    {
        self.configured_audio_latency = latency;
    }

    /// The current tempo in beats per minute.
    pub fn get_bpm(&self) -> (r: i64)
        ensures
            r == self.bpm,
    {
        self.bpm
    }

    /// Requests a tempo; out-of-range requests are clamped, not rejected.
    pub fn set_bpm(&mut self, bpm: i64)
        ensures
            *final(self) == (Engine { bpm: clamp_bpm(bpm as int) as i64, ..*old(self) }),
            MIN_BPM <= final(self).bpm <= MAX_BPM,
    {
        self.bpm = if bpm < MIN_BPM {
            MIN_BPM
        } else if bpm > MAX_BPM {
            MAX_BPM
        } else {
            bpm
        };
    }

    /// Switches the metronome on or off.
    pub fn toggle_metronome(&mut self)
        ensures
            *final(self) == (Engine {
                metronome_enabled: !old(self).metronome_enabled,
                ..*old(self)
            }),
    {
        self.metronome_enabled = !self.metronome_enabled;
    }

    /// Whether scheduling passes emit metronome clicks.
    pub fn is_metronome_enabled(&self) -> (r: bool)
        ensures
            r == self.metronome_enabled,
    {
        self.metronome_enabled
    }

    /// Notes the whole beat the clock has reached. Returns the loop index
    /// when a new loop has just begun (the observed whole beat changed and
    /// is beat 0), so the host can announce the new loop; `None` otherwise.
    pub fn observe_tick(&mut self, current_tick: i64) -> (r: Option<i64>)
        requires
            0 <= current_tick <= MAX_TICK,
        ensures
            *final(self) == (Engine { last_beat: whole_beat(current_tick as int) as i64, ..*old(self) }),
            r == if whole_beat(current_tick as int) != old(self).last_beat && whole_beat(
                current_tick as int,
            ) == 0 {
                Some((current_tick as int / (BEATS_PER_LOOP as int)) as i64)
            } else {
                None::<i64>
            },
    {
        let current_beat = beat_of_tick(current_tick) / UNITS_PER_BEAT;
        if current_beat != self.last_beat {
            self.last_beat = current_beat;
            if current_beat == 0 {
                return Some(loop_of_tick(current_tick));
            }
        }
        None
    }

    /// One scheduling pass. If the clock has not advanced past the previous
    /// boundary the pass is a no-op (nothing is scheduled twice). Otherwise
    /// it opens the window from the old boundary to `current_tick +
    /// TICK_SCHEDULE_AHEAD`, emits one play request for every repetition of
    /// every note that falls inside it — the metronome clicks too when
    /// enabled — and advances the boundary to the window's end, leaving no
    /// gap between consecutive windows.
    pub fn advance_schedule(&mut self, current_tick: i64, voices: &Voices) -> (r: Vec<PlayRequest>)
        requires
            old(self).wf(),
            voices.wf(),
            0 <= current_tick <= MAX_TICK - TICK_SCHEDULE_AHEAD,
        ensures
            final(self).wf(),
            current_tick <= old(self).last_scheduled_tick ==> (*final(self) == *old(self) && r@
                == Seq::<PlayRequest>::empty()),
            current_tick > old(self).last_scheduled_tick ==> (*final(self) == (Engine {
                last_scheduled_tick: (current_tick + TICK_SCHEDULE_AHEAD) as i64,
                ..*old(self)
            }) && r@ == all_requests(
                *voices,
                old(self).metronome_enabled,
                old(self).last_scheduled_tick as int,
                current_tick + TICK_SCHEDULE_AHEAD,
            )),
    {
        if current_tick <= self.last_scheduled_tick {
            return Vec::new();
        }
        let tick_to_schedule = current_tick + TICK_SCHEDULE_AHEAD;

        let mut out: Vec<PlayRequest> = Vec::new();
        let mut part = schedule_instrument(
            voices,
            Instrument::ClosedHihat,
            self.last_scheduled_tick,
            tick_to_schedule,
        );
        out.append(&mut part);
        let mut part = schedule_instrument(
            voices,
            Instrument::Snare,
            self.last_scheduled_tick,
            tick_to_schedule,
        );
        out.append(&mut part);
        let mut part = schedule_instrument(
            voices,
            Instrument::Kick,
            self.last_scheduled_tick,
            tick_to_schedule,
        );
        out.append(&mut part);
        let mut part = schedule_instrument(
            voices,
            Instrument::OpenHihat,
            self.last_scheduled_tick,
            tick_to_schedule,
        );
        out.append(&mut part);
        let mut part = schedule_instrument(
            voices,
            Instrument::Ride,
            self.last_scheduled_tick,
            tick_to_schedule,
        );
        out.append(&mut part);
        let mut part = schedule_instrument(
            voices,
            Instrument::Crash,
            self.last_scheduled_tick,
            tick_to_schedule,
        );
        out.append(&mut part);
        let mut part = schedule_instrument(
            voices,
            Instrument::Tom1,
            self.last_scheduled_tick,
            tick_to_schedule,
        );
        out.append(&mut part);
        let mut part = schedule_instrument(
            voices,
            Instrument::Tom2,
            self.last_scheduled_tick,
            tick_to_schedule,
        );
        out.append(&mut part);
        let mut part = schedule_instrument(
            voices,
            Instrument::Tom3,
            self.last_scheduled_tick,
            tick_to_schedule,
        );
        out.append(&mut part);
        let mut part = schedule_instrument(
            voices,
            Instrument::PedalHiHat,
            self.last_scheduled_tick,
            tick_to_schedule,
        );
        out.append(&mut part);

        if self.metronome_enabled {
            let clicks = metronome_notes();
            let mut part = schedule_audio(
                &clicks,
                Sound::Metronome,
                self.last_scheduled_tick,
                tick_to_schedule,
            );
            out.append(&mut part);
        }

        self.last_scheduled_tick = tick_to_schedule;
        out
    }

    /// Records a hit of an instrument at the current clock tick, first
    /// subtracting the input's processing delay (milliseconds, converted to
    /// beat units at the current tempo).
    pub fn track_user_hit(&mut self, instrument: Instrument, current_tick: i64, processing_delay_ms: i64)
        requires
            old(self).wf(),
            0 <= current_tick <= MAX_TICK,
            0 <= processing_delay_ms,
            processing_delay_ms * old(self).bpm <= i64::MAX,
            delay_units(processing_delay_ms as int, old(self).bpm as int) <= MAX_TICK,
        ensures
            final(self).wf(),
            *final(self) == (Engine {
                user_hits: final(self).user_hits,
                ..*old(self)
            }),
            final(self).user_hits@ == old(self).user_hits@.push(
                UserHit {
                    instrument,
                    clock_tick: (current_tick - delay_units(
                        processing_delay_ms as int,
                        old(self).bpm as int,
                    )) as i64,
                },
            ),
    {
        let processing_delay_ticks = processing_delay_to_units(processing_delay_ms, self.bpm);
        let hit = UserHit::new(instrument, current_tick - processing_delay_ticks);
        self.user_hits.push(hit);
    }

    /// Records one calibration tap at the current clock tick and returns the
    /// mean signed distance of the recent taps from their nearest whole
    /// beats (beat units, rounded toward zero). The tap joins the rolling
    /// window first and the mean is taken over the window including it, at
    /// most six taps; the oldest tap is then evicted when more than five
    /// would otherwise stay behind.
    pub fn track_for_calibration(&mut self, current_tick: i64) -> (r: i64)
        requires
            old(self).wf(),
            0 <= current_tick <= MAX_TICK,
        ensures
            final(self).wf(),
            *final(self) == (Engine {
                calibration_input: final(self).calibration_input,
                ..*old(self)
            }),
            ({
                let samples = old(self).calibration_input@.push(
                    (current_tick as int % (BEATS_PER_LOOP as int)) as i64,
                );
                &&& final(self).calibration_input@ == if samples.len() > 5 {
                    samples.drop_first()
                } else {
                    samples
                }
                &&& r == trunc_div(cal_dist_sum(samples), samples.len() as int)
            }),
    {
        let beat = beat_of_tick(current_tick);
        self.calibration_input.push(beat);

        let ghost samples = self.calibration_input@;
        let mut sum: i64 = 0;
        let mut i: usize = 0;
        while i < self.calibration_input.len()
            invariant
                i <= samples.len(),
                self.calibration_input@ == samples,
                samples.len() <= 6,
                forall|k: int| 0 <= k < samples.len() ==> 0 <= #[trigger] samples[k] < BEATS_PER_LOOP,
                sum == cal_dist_sum(samples.take(i as int)),
                -500 * i <= sum <= 500 * i,
            decreases samples.len() - i,
        {
            proof {
                assert(samples.take(i + 1).drop_last() =~= samples.take(i as int));
                assert(samples.take(i + 1).last() == samples[i as int]);
            }
            let x = self.calibration_input[i];
            let m = x % UNITS_PER_BEAT;
            let d = if m < 500 {
                m
            } else {
                m - UNITS_PER_BEAT
            };
            sum = sum + d;
            i = i + 1;
        }
        proof {
            assert(samples.take(samples.len() as int) =~= samples);
        }
        let avg = div_toward_zero(sum, self.calibration_input.len() as i64);
        if self.calibration_input.len() > 5 {
            self.calibration_input.remove(0);
            proof {
                assert(samples.remove(0) =~= samples.drop_first());
            }
        }
        avg
    }
}

} // verus!
