use macroix::consts::BEATS_PER_LOOP;
use macroix::consts::TICK_SCHEDULE_AHEAD;
use macroix::schedule::get_volume;
use macroix::schedule::schedule_audio;
use macroix::schedule::PlayRequest;
use macroix::schedule::Sound;
use macroix::voices::Instrument;

#[test]
fn notes_in_a_plain_window_are_scheduled_once() {
    let notes = vec![1000, 2000, 3000];
    let sound = Sound::Instrument(Instrument::Kick);
    let requests = schedule_audio(&notes, sound, 1500, 2500);
    assert_eq!(
        requests,
        vec![PlayRequest { sound, note: 2000, loop_num: 0, tick: 2000 }]
    );
}

#[test]
fn window_bounds_are_exclusive_lower_inclusive_upper() {
    let notes = vec![1000, 2000];
    let sound = Sound::Instrument(Instrument::Snare);
    // a note exactly at the window start was already scheduled last pass;
    // a note exactly at the window end is captured now
    let requests = schedule_audio(&notes, sound, 1000, 2000);
    assert_eq!(
        requests,
        vec![PlayRequest { sound, note: 2000, loop_num: 0, tick: 2000 }]
    );
}

#[test]
fn wraparound_window_schedules_tail_and_head_once_each() {
    // window crosses the loop boundary: prev beat 15.0, next beat 0.5
    let sound = Sound::Instrument(Instrument::ClosedHihat);
    let requests = schedule_audio(&vec![15500, 0], sound, 15000, 16500);
    assert_eq!(
        requests,
        vec![
            PlayRequest { sound, note: 15500, loop_num: 0, tick: 15500 },
            PlayRequest { sound, note: 0, loop_num: 1, tick: 16000 },
        ]
    );

    // a note outside both stretches of the wrapped window is not scheduled
    let requests = schedule_audio(&vec![1000], sound, 15000, 16500);
    assert_eq!(requests, vec![]);
}

#[test]
fn later_loops_get_offset_ticks() {
    let sound = Sound::Instrument(Instrument::Ride);
    let requests = schedule_audio(&vec![500], sound, 32100, 32900);
    assert_eq!(
        requests,
        vec![PlayRequest { sound, note: 500, loop_num: 2, tick: 32500 }]
    );
}

#[test]
fn consecutive_windows_cover_the_combined_window_without_overlap() {
    let notes = vec![0, 500, 14500, 15500];
    let sound = Sound::Instrument(Instrument::Kick);
    let first = schedule_audio(&notes, sound, 14000, 15500);
    let second = schedule_audio(&notes, sound, 15500, 17000);
    let combined = schedule_audio(&notes, sound, 14000, 17000);

    let mut union: Vec<PlayRequest> = first.clone();
    union.extend(second.iter().cloned());

    // same requests as one pass over the whole window, regardless of order
    let mut union_sorted: Vec<(i64, i64)> = union.iter().map(|r| (r.tick, r.note)).collect();
    union_sorted.sort();
    let mut combined_sorted: Vec<(i64, i64)> = combined.iter().map(|r| (r.tick, r.note)).collect();
    combined_sorted.sort();
    assert_eq!(union_sorted, combined_sorted);

    // and no request is emitted by both passes
    for r in &first {
        assert!(!second.contains(r));
    }
}

#[test]
fn first_window_after_start_reaches_back_one_beat() {
    // the boundary starts one beat before tick zero, so beat-0 notes of the
    // very first loop are scheduled in the first pass
    let sound = Sound::Instrument(Instrument::Kick);
    let requests = schedule_audio(&vec![0], sound, -1000, TICK_SCHEDULE_AHEAD);
    assert_eq!(
        requests,
        vec![PlayRequest { sound, note: 0, loop_num: 0, tick: 0 }]
    );
}

#[test]
fn a_full_loop_of_windows_schedules_every_note_exactly_once() {
    let notes = vec![0, 2500, 8000, 15999];
    let sound = Sound::Instrument(Instrument::Crash);
    let mut all: Vec<PlayRequest> = Vec::new();
    let mut boundary: i64 = 0;
    while boundary < BEATS_PER_LOOP {
        let pass = schedule_audio(&notes, sound, boundary, boundary + 2000);
        all.extend(pass);
        boundary += 2000;
    }
    // ticks 0..16000 exhausted: every note of loop 0 exactly once, except
    // beat 0 which the window (0, ...] excludes and loop 1 supplies instead
    let mut ticks: Vec<i64> = all.iter().map(|r| r.tick).collect();
    ticks.sort();
    assert_eq!(ticks, vec![2500, 8000, 15999, 16000]);
}

#[test]
fn volumes_follow_the_instrument_table() {
    assert_eq!(get_volume(&Sound::Instrument(Instrument::OpenHihat)), 500);
    assert_eq!(get_volume(&Sound::Instrument(Instrument::Ride)), 150);
    assert_eq!(get_volume(&Sound::Instrument(Instrument::Crash)), 400);
    assert_eq!(get_volume(&Sound::Instrument(Instrument::Tom1)), 250);
    assert_eq!(get_volume(&Sound::Instrument(Instrument::Tom2)), 250);
    assert_eq!(get_volume(&Sound::Instrument(Instrument::Tom3)), 250);
    assert_eq!(get_volume(&Sound::Instrument(Instrument::PedalHiHat)), 500);
    assert_eq!(get_volume(&Sound::Instrument(Instrument::Kick)), 1000);
    assert_eq!(get_volume(&Sound::Instrument(Instrument::Snare)), 1000);
    assert_eq!(get_volume(&Sound::Instrument(Instrument::ClosedHihat)), 1000);
    assert_eq!(get_volume(&Sound::Metronome), 1000);
}

#[test]
fn an_empty_note_list_schedules_nothing() {
    let requests = schedule_audio(&vec![], Sound::Metronome, 0, 2000);
    assert_eq!(requests, vec![]);
}

#[test]
fn a_note_listed_twice_is_scheduled_twice() {
    let sound = Sound::Instrument(Instrument::Tom2);
    let requests = schedule_audio(&vec![500, 500], sound, 0, 2000);
    assert_eq!(
        requests,
        vec![
            PlayRequest { sound, note: 500, loop_num: 0, tick: 500 },
            PlayRequest { sound, note: 500, loop_num: 0, tick: 500 },
        ]
    );
}
