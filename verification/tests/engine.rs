use macroix::clock::beat_of_tick;
use macroix::clock::loop_of_tick;
use macroix::clock::units_to_ms;
use macroix::consts::BEATS_PER_LOOP;
use macroix::consts::DEFAULT_BPM;
use macroix::consts::MAX_BPM;
use macroix::consts::MAX_TICK;
use macroix::consts::MIN_BPM;
use macroix::consts::TICK_SCHEDULE_AHEAD;
use macroix::consts::UNITS_PER_BEAT;
use macroix::engine::Engine;
use macroix::score::compute_last_loop_summary;
use macroix::score::ScoreTracker;
use macroix::schedule::PlayRequest;
use macroix::schedule::Sound;
use macroix::voices::Instrument;
use macroix::voices::Voices;

#[test]
fn clock_position_splits_into_beat_and_loop() {
    assert_eq!(beat_of_tick(0), 0);
    assert_eq!(loop_of_tick(0), 0);
    assert_eq!(beat_of_tick(15999), 15999);
    assert_eq!(loop_of_tick(15999), 0);
    assert_eq!(beat_of_tick(16000), 0);
    assert_eq!(loop_of_tick(16000), 1);
    assert_eq!(beat_of_tick(32100), 100);
    assert_eq!(loop_of_tick(32100), 2);
}

#[test]
fn tempo_requests_are_clamped() {
    let mut engine = Engine::new(0);
    assert_eq!(engine.get_bpm(), DEFAULT_BPM);
    engine.set_bpm(120);
    assert_eq!(engine.get_bpm(), 120);
    engine.set_bpm(10);
    assert_eq!(engine.get_bpm(), MIN_BPM);
    engine.set_bpm(10_000);
    assert_eq!(engine.get_bpm(), MAX_BPM);
}

#[test]
fn first_pass_schedules_the_first_loops_opening_notes() {
    let mut engine = Engine::new(0);
    let mut voices = Voices::new();
    voices.toggle_beat(Instrument::Kick, 0);
    voices.toggle_beat(Instrument::Kick, 3000);

    let requests = engine.advance_schedule(0, &voices);
    // window (-1 beat, lookahead]: the beat-0 note is scheduled right away
    assert_eq!(
        requests,
        vec![PlayRequest {
            sound: Sound::Instrument(Instrument::Kick),
            note: 0,
            loop_num: 0,
            tick: 0,
        }]
    );
    assert_eq!(engine.last_scheduled_tick, TICK_SCHEDULE_AHEAD);
}

#[test]
fn a_pass_without_clock_progress_is_a_no_op() {
    let mut engine = Engine::new(0);
    let mut voices = Voices::new();
    voices.toggle_beat(Instrument::Snare, 1000);

    let first = engine.advance_schedule(1500, &voices); // window (-1000, 3500]
    assert_eq!(first.len(), 1);
    let boundary = engine.last_scheduled_tick;
    // the clock has not moved past the boundary: nothing is rescheduled
    let second = engine.advance_schedule(boundary, &voices);
    assert_eq!(second, vec![]);
    assert_eq!(engine.last_scheduled_tick, boundary);
}

#[test]
fn consecutive_passes_never_reschedule_a_note() {
    let mut engine = Engine::new(0);
    let mut voices = Voices::new();
    voices.toggle_beat(Instrument::Kick, 500);
    voices.toggle_beat(Instrument::Kick, 1500);

    let first = engine.advance_schedule(0, &voices); // window (-1000, 2000]
    let second = engine.advance_schedule(2500, &voices); // window (2000, 4500]
    assert_eq!(first.len(), 2);
    assert_eq!(second.len(), 0);

    let mut engine2 = Engine::new(0);
    let third = engine2.advance_schedule(2500, &voices); // window (-1000, 4500]
    // one wider pass over the same ground schedules the same notes once
    assert_eq!(third.len(), 2);
    for r in &first {
        assert!(third.contains(r));
    }
}

#[test]
fn metronome_clicks_join_the_schedule_when_enabled() {
    let mut engine = Engine::new(0);
    let voices = Voices::new();
    engine.toggle_metronome();
    assert!(engine.is_metronome_enabled());

    let requests = engine.advance_schedule(1500, &voices); // window (-1000, 3500]
    let ticks: Vec<i64> = requests.iter().map(|r| r.tick).collect();
    assert_eq!(ticks, vec![0, 2000]);
    assert!(requests.iter().all(|r| r.sound == Sound::Metronome));

    engine.toggle_metronome();
    assert!(!engine.is_metronome_enabled());
}

#[test]
fn observe_tick_reports_each_new_loop_once() {
    let mut engine = Engine::new(0);
    assert_eq!(engine.observe_tick(0), Some(0)); // beat 0 of loop 0 just began
    assert_eq!(engine.observe_tick(500), None); // still beat 0
    assert_eq!(engine.observe_tick(1500), None); // beat 1: new beat, not a new loop
    assert_eq!(engine.observe_tick(15999), None); // beat 15
    assert_eq!(engine.observe_tick(16050), Some(1)); // beat 0 of loop 1
}

#[test]
fn user_hits_are_backdated_by_the_processing_delay() {
    let mut engine = Engine::new(0);
    // at 60 bpm the clock runs 2 ticks per second: 1000 ms is 2 ticks
    engine.track_user_hit(Instrument::Snare, 5000, 1000);
    assert_eq!(engine.user_hits.len(), 1);
    assert_eq!(engine.user_hits[0].instrument, Instrument::Snare);
    assert_eq!(engine.user_hits[0].clock_tick, 3000);

    engine.track_user_hit(Instrument::Kick, 5000, 0);
    assert_eq!(engine.user_hits[1].clock_tick, 5000);
}

#[test]
fn calibration_reports_the_rolling_mean_offset() {
    let mut engine = Engine::new(0);
    // taps at beats 0.05, -0.05 (i.e. 15.95) and 0.10
    assert_eq!(engine.track_for_calibration(50), 50);
    assert_eq!(engine.track_for_calibration(15950), 0);
    // (50 - 50 + 100) / 3 rounds toward zero to 33 thousandths of a beat
    assert_eq!(engine.track_for_calibration(32100), 33);
    // at 60 bpm, 33 thousandths of a beat is 33 ms
    assert_eq!(units_to_ms(33, 60), 33);
}

#[test]
fn calibration_window_keeps_at_most_six_taps() {
    let mut engine = Engine::new(0);
    for i in 0..9 {
        let _ = engine.track_for_calibration(i * UNITS_PER_BEAT);
        assert!(engine.calibration_input.len() <= 5);
    }
    // the oldest taps were evicted: the stored window holds the newest five
    assert_eq!(engine.calibration_input, vec![4000, 5000, 6000, 7000, 8000]);
}

#[test]
fn calibration_mean_is_over_the_window_including_the_new_tap() {
    let mut engine = Engine::new(0);
    // six taps at +0.1 of a beat, then one exactly on a beat:
    // the mean is over the six most recent taps at the moment of computing
    for i in 0..6 {
        let _ = engine.track_for_calibration(i * UNITS_PER_BEAT + 100);
    }
    let avg = engine.track_for_calibration(6 * UNITS_PER_BEAT);
    // window when computing: five taps at +100 and one at 0
    assert_eq!(avg, (5 * 100) / 6);
}

#[test]
fn configured_latency_is_stored_as_given() {
    let mut engine = Engine::new(17);
    assert_eq!(engine.get_configured_audio_latency(), 17);
    engine.set_configured_audio_latency(-40);
    assert_eq!(engine.get_configured_audio_latency(), -40);
}

#[test]
fn toggling_a_beat_twice_restores_the_loop() {
    let mut voices = Voices::new();
    voices.toggle_beat(Instrument::Tom1, 4000);
    assert_eq!(voices.get_instrument_beats(&Instrument::Tom1), &vec![4000]);
    voices.toggle_beat(Instrument::Tom1, 4000);
    assert_eq!(voices.get_instrument_beats(&Instrument::Tom1), &vec![]);
}

#[test]
fn clock_arithmetic_holds_at_the_tick_ceiling() {
    let beat = beat_of_tick(MAX_TICK);
    assert_eq!(beat, MAX_TICK % BEATS_PER_LOOP);
    assert_eq!(loop_of_tick(MAX_TICK), MAX_TICK / BEATS_PER_LOOP);
}

#[test]
fn scoring_an_empty_loop_yields_empty_scores() {
    let voices = Voices::new();
    let summary = compute_last_loop_summary(&vec![], &voices, 0);
    let total = summary.total();
    assert_eq!(total, ScoreTracker { num_correct: 0, num_notes: 0 });
    assert_eq!(total.ratio(), None);
}
