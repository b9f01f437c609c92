use macroix::consts::BEATS_PER_LOOP;
use macroix::consts::UserHit;
use macroix::score::compute_accuracy_of_single_hit;
use macroix::score::compute_last_loop_summary;
use macroix::score::compute_loop_performance_for_voice;
use macroix::score::get_hits_from_nth_loop;
use macroix::score::get_user_hit_timings_by_instrument;
use macroix::score::Accuracy;
use macroix::score::LastLoopSummary;
use macroix::score::ScoreTracker;
use macroix::score::CORRECT_MARGIN;
use macroix::score::MISS_MARGIN;
use macroix::voices::Instrument;
use macroix::voices::Voices;

#[test]
fn it_computes_accuracy_against_one_note() {
    let compute_accuracy_legacy = |user_beat_with_latency: i64, desired_hits: &Vec<i64>| {
        compute_accuracy_of_single_hit(user_beat_with_latency, desired_hits).0
    };

    // exactly correct
    let result = compute_accuracy_legacy(0, &vec![0]);
    assert_eq!(result, Accuracy::Correct);

    // within (at) the correct margin
    let result = compute_accuracy_legacy(CORRECT_MARGIN, &vec![0]);
    assert_eq!(result, Accuracy::Correct);

    let result = compute_accuracy_legacy(-CORRECT_MARGIN, &vec![0]);
    assert_eq!(result, Accuracy::Correct);

    // between the correct margin and the miss margin
    let late = CORRECT_MARGIN + (MISS_MARGIN - CORRECT_MARGIN) / 2;
    let result = compute_accuracy_legacy(late, &vec![0]);
    assert_eq!(result, Accuracy::Late);

    let result = compute_accuracy_legacy(-late, &vec![0]);
    assert_eq!(result, Accuracy::Early);

    // exactly at the miss margin
    let almost_miss = MISS_MARGIN;
    let result = compute_accuracy_legacy(almost_miss, &vec![0]);
    assert_eq!(result, Accuracy::Late);

    let result = compute_accuracy_legacy(-almost_miss, &vec![0]);
    assert_eq!(result, Accuracy::Early);

    // beyond the miss margin
    let miss = MISS_MARGIN + 1;
    let result = compute_accuracy_legacy(miss, &vec![0]);
    assert_eq!(result, Accuracy::Miss);

    let result = compute_accuracy_legacy(-miss, &vec![0]);
    assert_eq!(result, Accuracy::Miss);
}

#[test]
fn it_computes_accuracy_against_correct_target_note_from_many() {
    let compute_accuracy_legacy = |user_beat_with_latency: i64, desired_hits: &Vec<i64>| {
        compute_accuracy_of_single_hit(user_beat_with_latency, desired_hits).0
    };

    // should check if it's closer to the nearest note: 0, not 1000
    let result = compute_accuracy_legacy(CORRECT_MARGIN, &vec![0, 1000]);
    assert_eq!(result, Accuracy::Correct);

    // handle wrap-around case
    let result = compute_accuracy_legacy(BEATS_PER_LOOP - CORRECT_MARGIN, &vec![0, 1000]);
    assert_eq!(result, Accuracy::Correct);

    let result = compute_accuracy_legacy(BEATS_PER_LOOP - CORRECT_MARGIN - 1, &vec![0, 1000]);
    assert_eq!(result, Accuracy::Early);

    // one unit farther from the wrapped note than the miss margin allows
    let result = compute_accuracy_legacy(BEATS_PER_LOOP - MISS_MARGIN - 1, &vec![0, 1000]);
    assert_eq!(result, Accuracy::Miss);
}

#[test]
fn it_computes_accuracy_considering_is_next_loop() {
    let result = compute_accuracy_of_single_hit(BEATS_PER_LOOP - CORRECT_MARGIN, &vec![0]);
    assert_eq!(result, (Accuracy::Correct, true));

    let result = compute_accuracy_of_single_hit(BEATS_PER_LOOP - CORRECT_MARGIN - 1, &vec![0]);
    assert_eq!(result, (Accuracy::Early, true));
}

#[test]
fn it_computes_last_loop_summary_for_correct_user_htis() {
    let user_hits = vec![UserHit::new(Instrument::Kick, 0)];
    let mut desired_hits = Voices::new();
    desired_hits.toggle_beat(Instrument::Kick, 0);

    let result = compute_last_loop_summary(&user_hits, &desired_hits, 0);
    assert_eq!(
        result.get_score_tracker(&Instrument::Kick),
        &ScoreTracker {
            num_correct: 1,
            num_notes: 1,
        }
    );
}

#[test]
fn it_computes_last_loop_summary_for_incorrect_user_hits() {
    let user_hits = vec![UserHit::new(Instrument::Kick, 500)];
    let mut desired_hits = Voices::new();
    desired_hits.toggle_beat(Instrument::Kick, 0);

    let result = compute_last_loop_summary(&user_hits, &desired_hits, 0);
    assert_eq!(
        result.get_score_tracker(&Instrument::Kick),
        &ScoreTracker {
            num_correct: 0,
            num_notes: 1,
        }
    );
}

#[test]
fn it_computes_loop_performance_for_voice() {
    let user_hits = vec![500, 600, 800];
    let desired_hits = vec![0, 500, 1000];
    let loop_current_beat = 4000;
    let result = compute_loop_performance_for_voice(&user_hits, &desired_hits, loop_current_beat);
    assert_eq!(
        result,
        vec![Accuracy::Miss, Accuracy::Correct, Accuracy::Early]
    );
}

#[test]
fn hit_exactly_on_the_note_is_correct_and_not_next_loop() {
    let result = compute_accuracy_of_single_hit(0, &vec![0]);
    assert_eq!(result, (Accuracy::Correct, false));
}

#[test]
fn hit_just_before_loop_end_targets_next_loop_and_is_early() {
    // one unit earlier than the correct margin around the wrapped beat-0 note
    let result = compute_accuracy_of_single_hit(BEATS_PER_LOOP - CORRECT_MARGIN - 1, &vec![0, 1000]);
    assert_eq!(result, (Accuracy::Early, true));
}

#[test]
fn classification_margins_are_exact() {
    let one = |beat: i64| compute_accuracy_of_single_hit(beat, &vec![0]).0;
    assert_eq!(one(CORRECT_MARGIN), Accuracy::Correct);
    assert_eq!(one(CORRECT_MARGIN + 1), Accuracy::Late);
    assert_eq!(one(MISS_MARGIN), Accuracy::Late);
    assert_eq!(one(MISS_MARGIN + 1), Accuracy::Miss);
    assert_eq!(one(-CORRECT_MARGIN), Accuracy::Correct);
    assert_eq!(one(-CORRECT_MARGIN - 1), Accuracy::Early);
    assert_eq!(one(-MISS_MARGIN), Accuracy::Early);
    assert_eq!(one(-MISS_MARGIN - 1), Accuracy::Miss);
}

#[test]
fn nearest_note_wins_and_first_wins_ties() {
    // 700 is 700 from the first note but only 300 from the second,
    // so it counts as early of the second note
    let result = compute_accuracy_of_single_hit(700, &vec![0, 1000]);
    assert_eq!(result.0, Accuracy::Early);

    // equidistant: the earlier note in the list is matched, so the hit
    // is 200 late of 300 rather than 200 early of 700
    let result = compute_accuracy_of_single_hit(500, &vec![300, 700]);
    assert_eq!(result.0, Accuracy::Late);
}

#[test]
fn empty_note_list_is_a_miss() {
    let result = compute_accuracy_of_single_hit(500, &vec![]);
    assert_eq!(result, (Accuracy::Miss, false));
}

#[test]
fn notes_after_the_cutoff_are_unknown() {
    let result = compute_loop_performance_for_voice(&vec![5000], &vec![5000, 6000], 5500);
    assert_eq!(result, vec![Accuracy::Correct, Accuracy::Unknown]);
}

#[test]
fn ratio_is_per_mille_and_guards_empty() {
    let empty = ScoreTracker { num_correct: 0, num_notes: 0 };
    assert_eq!(empty.ratio(), None);
    let half = ScoreTracker { num_correct: 1, num_notes: 2 };
    assert_eq!(half.ratio(), Some(500));
    let full = ScoreTracker { num_correct: 3, num_notes: 3 };
    assert_eq!(full.ratio(), Some(1000));
    let third = ScoreTracker { num_correct: 1, num_notes: 3 };
    assert_eq!(third.ratio(), Some(333));
}

#[test]
fn summary_total_sums_all_instruments() {
    let mut summary = LastLoopSummary::new();
    summary.set_score_tracker(
        &Instrument::Kick,
        ScoreTracker { num_correct: 2, num_notes: 4 },
    );
    summary.set_score_tracker(
        &Instrument::Snare,
        ScoreTracker { num_correct: 1, num_notes: 3 },
    );
    let total = summary.total();
    assert_eq!(total.num_correct, 3);
    assert_eq!(total.num_notes, 7);
}

#[test]
fn timings_are_filtered_by_instrument_and_mapped_to_beats() {
    let hits = vec![
        UserHit::new(Instrument::Kick, 16100),
        UserHit::new(Instrument::Snare, 200),
        UserHit::new(Instrument::Kick, 300),
    ];
    let timings = get_user_hit_timings_by_instrument(&hits, Instrument::Kick);
    assert_eq!(timings, vec![100, 300]);
}

#[test]
fn hits_near_the_loop_boundary_count_toward_the_aimed_loop() {
    let hits = vec![
        UserHit::new(Instrument::Kick, -200),
        UserHit::new(Instrument::Kick, 100),
        UserHit::new(Instrument::Kick, 15800),
        UserHit::new(Instrument::Kick, 16200),
    ];
    let loop0 = get_hits_from_nth_loop(&hits, 0);
    assert_eq!(loop0.len(), 2);
    assert_eq!(loop0[0].clock_tick, -200);
    assert_eq!(loop0[1].clock_tick, 100);
    let loop1 = get_hits_from_nth_loop(&hits, 1);
    assert_eq!(loop1.len(), 2);
    assert_eq!(loop1[0].clock_tick, 15800);
    assert_eq!(loop1[1].clock_tick, 16200);
}

#[test]
fn summary_counts_only_strictly_correct_hits() {
    let user_hits = vec![
        UserHit::new(Instrument::Kick, 0),
        UserHit::new(Instrument::Kick, 1200), // late of 1000 by 200: not counted
        UserHit::new(Instrument::Kick, 1100), // within the correct margin of 1000
    ];
    let mut desired_hits = Voices::new();
    desired_hits.toggle_beat(Instrument::Kick, 0);
    desired_hits.toggle_beat(Instrument::Kick, 1000);

    let result = compute_last_loop_summary(&user_hits, &desired_hits, 0);
    assert_eq!(
        result.get_score_tracker(&Instrument::Kick),
        &ScoreTracker {
            num_correct: 2,
            num_notes: 2,
        }
    );
    // an untouched instrument has no notes and no correct hits
    assert_eq!(
        result.get_score_tracker(&Instrument::Ride),
        &ScoreTracker {
            num_correct: 0,
            num_notes: 0,
        }
    );
}
