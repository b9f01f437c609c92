//! Accuracy scoring: matching an observed hit to the nearest expected note
//! (including the wrap onto the next loop repetition) and classifying the
//! timing difference, plus per-loop performance aggregation.

use vstd::prelude::*;

use vstd::math::abs;

use crate::clock;
use crate::consts::{BEATS_PER_LOOP, MAX_TICK, UserHit};
use crate::voices::{all_instruments, all_instruments_spec, Instrument, Voices};

verus! {

/// How accurately one expected note was (or was not) hit.
#[derive(Debug, PartialEq, Eq, Copy, Clone, Structural)]
pub enum Accuracy {
    Correct,
    Early,
    Late,
    Miss,
    Unknown,
}

/// Half-width of the window around a note that still counts as `Correct`,
/// in beat units. Kept a whisker above a clean 0.15 beats so the boundary
/// sits strictly between representable positions rather than on one.
pub const CORRECT_MARGIN: i64 = 151;

/// Beyond this distance from every candidate note, a hit is a `Miss`
/// (in beat units). Exactly at the margin is still `Early`/`Late`.
pub const MISS_MARGIN: i64 = 300;

/// Classification of a signed distance `d` (hit minus matched note):
/// strictly beyond `MISS_MARGIN` is a miss; otherwise strictly beyond
/// `CORRECT_MARGIN` is early or late by sign; the rest is correct.
pub open spec fn classify_distance(d: int) -> Accuracy {
    if abs(d) > MISS_MARGIN {
        Accuracy::Miss
    } else if d < -(CORRECT_MARGIN as int) {
        Accuracy::Early
    } else if d > CORRECT_MARGIN {
        Accuracy::Late
    } else {
        Accuracy::Correct
    }
}

/// The note of `notes` nearest to `user` (smallest absolute signed distance),
/// the earliest such note winning ties.
pub open spec fn nearest_note(user: int, notes: Seq<i64>) -> i64
    recommends
        notes.len() > 0,
    decreases notes.len(),
{
    if notes.len() <= 1 {
        notes[0]
    } else {
        let prev = nearest_note(user, notes.drop_last());
        let last = notes.last();
        if abs(user - last) < abs(user - prev) {
            last
        } else {
            prev
        }
    }
}

/// Whether the wraparound candidate wins: when the notes include beat 0, the
/// same note one full loop later (`BEATS_PER_LOOP`) is also a candidate, and
/// it replaces the in-loop nearest note only when strictly closer.
pub open spec fn wrap_candidate_wins(user: int, notes: Seq<i64>) -> bool {
    notes.contains(0i64) && abs(user - BEATS_PER_LOOP) < abs(
        user - nearest_note(user, notes),
    )
}

/// The beat the hit is matched against: the nearest in-loop note, or
/// `BEATS_PER_LOOP` when the wraparound candidate is strictly closer.
pub open spec fn matched_beat(user: int, notes: Seq<i64>) -> int
    recommends
        notes.len() > 0,
{
    if wrap_candidate_wins(user, notes) {
        BEATS_PER_LOOP as int
    } else {
        nearest_note(user, notes) as int
    }
}

/// The accuracy of one hit against a note list: `Miss` when there are no
/// candidates, otherwise the classification of the distance to the matched
/// beat.
pub open spec fn single_hit_accuracy(user: int, notes: Seq<i64>) -> Accuracy {
    if notes.len() == 0 {
        Accuracy::Miss
    } else {
        classify_distance(user - matched_beat(user, notes))
    }
}

/// Absolute value of a beat distance.
fn abs_i64(x: i64) -> (r: i64)
    requires
        x > i64::MIN,
    ensures
        r == abs(x as int),
{
    if x < 0 {
        -x
    } else {
        x
    }
}

/// Whether the note list contains beat 0.
fn contains_zero(notes: &Vec<i64>) -> (r: bool)
    ensures
        r == notes@.contains(0i64),
{
    let mut i: usize = 0;
    let mut found = false;
    while i < notes.len()
        invariant
            i <= notes.len(),
            found == notes@.take(i as int).contains(0i64),
        decreases notes.len() - i,
    {
        if notes[i] == 0 {
            found = true;
        }
        proof {
            assert(notes@.take(i + 1).drop_last() =~= notes@.take(i as int));
            assert(notes@.take(i + 1).last() == notes@[i as int]);
            if notes@.take(i as int).contains(0i64) {
                let w = choose|w: int| 0 <= w < i && notes@.take(i as int)[w] == 0i64;
                assert(notes@.take(i + 1)[w] == 0i64);
            }
            if notes@[i as int] == 0i64 {
                assert(notes@.take(i + 1)[i as int] == 0i64);
            }
            if notes@.take(i + 1).contains(0i64) {
                let w = choose|w: int| 0 <= w <= i as int && #[trigger] notes@.take(i + 1)[w]
                    == 0i64;
                if w < i {
                    assert(notes@.take(i as int)[w] == 0i64);
                }
            }
        }
        i = i + 1;
    }
    proof {
        assert(notes@.take(notes@.len() as int) =~= notes@);
    }
    found
}

/// Matches the hit to its nearest candidate note — including the wraparound
/// candidate at `BEATS_PER_LOOP` when beat 0 is among the notes — and
/// classifies the signed distance to it.
///
/// Returns the accuracy and whether the wraparound candidate won, i.e.
/// whether the hit really targets the next repetition's beat-0 note.
#[verifier::loop_isolation(false)]
pub fn compute_accuracy_of_single_hit(user_beat_with_latency: i64, desired_hits: &Vec<i64>) -> (r:
    (Accuracy, bool))
    requires
        -MAX_TICK <= user_beat_with_latency <= MAX_TICK,
        forall|i: int|
            0 <= i < desired_hits@.len() ==> -MAX_TICK <= #[trigger] desired_hits@[i] <= MAX_TICK,
    ensures
        r.0 == single_hit_accuracy(user_beat_with_latency as int, desired_hits@),
        r.1 == wrap_candidate_wins(user_beat_with_latency as int, desired_hits@),
{
    let user = user_beat_with_latency;
    let mut target: Option<(i64, i64)> = None;
    let mut i: usize = 0;
    while i < desired_hits.len()
        invariant
            i <= desired_hits.len(),
            i == 0 ==> target is None,
            i > 0 ==> (target matches Some(td) && td.0 == nearest_note(
                user as int,
                desired_hits@.take(i as int),
            ) && td.1 == user - td.0),
        decreases desired_hits.len() - i,
    {
        let note = desired_hits[i];
        let new_dist = user - note;
        proof {
            assert(desired_hits@.take(i + 1).drop_last() =~= desired_hits@.take(i as int));
            assert(desired_hits@.take(i + 1).last() == desired_hits@[i as int]);
        }
        match target {
            None => {
                target = Some((note, new_dist));
            },
            Some((_, prev_dist)) => {
                if abs_i64(new_dist) < abs_i64(prev_dist) {
                    target = Some((note, new_dist));
                }
            },
        }
        i = i + 1;
    }
    proof {
        assert(desired_hits@.take(desired_hits@.len() as int) =~= desired_hits@);
    }

    let mut is_next_loop = false;
    if contains_zero(desired_hits) {
        let desired = BEATS_PER_LOOP;
        match target {
            None => {
                target = Some((desired, user - desired));
            },
            Some((_, prev_dist)) => {
                let new_dist = user - desired;
                if abs_i64(new_dist) < abs_i64(prev_dist) {
                    is_next_loop = true;
                    target = Some((desired, new_dist));
                }
            },
        }
    }

    match target {
        None => (Accuracy::Miss, false),
        Some((b, _)) => {
            let distance = user - b;
            let acc = if abs_i64(distance) > MISS_MARGIN {
                Accuracy::Miss
            } else if distance < -CORRECT_MARGIN {
                Accuracy::Early
            } else if distance > CORRECT_MARGIN {
                Accuracy::Late
            } else {
                Accuracy::Correct
            };
            (acc, is_next_loop)
        },
    }
}

/// The margins act as stated: within `CORRECT_MARGIN` (inclusive) of the
/// matched note is `Correct`; strictly between `CORRECT_MARGIN` and
/// `MISS_MARGIN` (inclusive) is `Late` after the note and `Early` before it;
/// strictly beyond `MISS_MARGIN` on either side is `Miss`.
pub proof fn lemma_classification_margins(d: int)
    ensures
        classify_distance(d) == Accuracy::Correct <==> -(CORRECT_MARGIN as int) <= d
            <= CORRECT_MARGIN,
        classify_distance(d) == Accuracy::Late <==> CORRECT_MARGIN < d <= MISS_MARGIN,
        classify_distance(d) == Accuracy::Early <==> -(MISS_MARGIN as int) <= d < -(
        CORRECT_MARGIN as int),
        classify_distance(d) == Accuracy::Miss <==> (d > MISS_MARGIN || d < -(MISS_MARGIN as int)),
{
}

/// The nearest note is one of the notes, and no note is strictly closer.
pub proof fn lemma_nearest_note_minimizes(user: int, notes: Seq<i64>)
    requires
        notes.len() > 0,
    ensures
        notes.contains(nearest_note(user, notes)),
        forall|i: int|
            0 <= i < notes.len() ==> abs(user - nearest_note(user, notes)) <= abs(
                user - #[trigger] notes[i],
            ),
    decreases notes.len(),
{
    if notes.len() == 1 {
        assert(notes[0] == nearest_note(user, notes));
    } else {
        lemma_nearest_note_minimizes(user, notes.drop_last());
        let prev = nearest_note(user, notes.drop_last());
        assert(notes.drop_last().contains(prev));
        let w = choose|w: int| 0 <= w < notes.drop_last().len() && notes.drop_last()[w] == prev;
        assert(notes[w] == prev);
        assert forall|i: int|
            0 <= i < notes.len() implies abs(user - nearest_note(user, notes)) <= abs(
            user - #[trigger] notes[i],
        ) by {
            if i < notes.len() - 1 {
                assert(notes.drop_last()[i] == notes[i]);
            } else {
                assert(notes[i] == notes.last());
            }
        }
    }
}

/// The matched beat minimizes the absolute distance over every candidate:
/// all in-loop notes and, when beat 0 is present, the wraparound candidate
/// at `BEATS_PER_LOOP`; and it is itself one of those candidates.
pub proof fn lemma_matched_beat_is_nearest(user: int, notes: Seq<i64>)
    requires
        notes.len() > 0,
    ensures
        forall|i: int|
            0 <= i < notes.len() ==> abs(user - matched_beat(user, notes)) <= abs(
                user - #[trigger] notes[i],
            ),
        notes.contains(0i64) ==> abs(user - matched_beat(user, notes)) <= abs(
            user - BEATS_PER_LOOP,
        ),
        wrap_candidate_wins(user, notes) ==> matched_beat(user, notes) == BEATS_PER_LOOP as int,
        !wrap_candidate_wins(user, notes) ==> notes.contains(matched_beat(user, notes) as i64),
{
    lemma_nearest_note_minimizes(user, notes);
}

} // verus!

verus! {

/// The beat position (within its loop) of one recorded hit.
pub open spec fn hit_beat(h: UserHit) -> i64 {
    clock::trunc_rem(h.clock_tick as int, BEATS_PER_LOOP as int) as i64
}

/// The beat positions of the hits struck on one instrument, in recording
/// order.
pub open spec fn hit_timings(hits: Seq<UserHit>, instrument: Instrument) -> Seq<i64>
    decreases hits.len(),
{
    if hits.len() == 0 {
        Seq::empty()
    } else {
        let rest = hit_timings(hits.drop_last(), instrument);
        if hits.last().instrument == instrument {
            rest.push(hit_beat(hits.last()))
        } else {
            rest
        }
    }
}

/// The beat positions of the hits struck on one instrument, in recording
/// order.
#[verifier::loop_isolation(false)]
pub fn get_user_hit_timings_by_instrument(user_hits: &Vec<UserHit>, instrument: Instrument) -> (r:
    Vec<i64>)
    requires
        forall|i: int|
            0 <= i < user_hits@.len() ==> -MAX_TICK <= (#[trigger] user_hits@[i]).clock_tick
                <= MAX_TICK,
    ensures
        r@ == hit_timings(user_hits@, instrument),
        forall|j: int| 0 <= j < r@.len() ==> -BEATS_PER_LOOP < #[trigger] r@[j] < BEATS_PER_LOOP,
{
    let mut r: Vec<i64> = Vec::new();
    let mut i: usize = 0;
    while i < user_hits.len()
        invariant
            i <= user_hits.len(),
            r@ == hit_timings(user_hits@.take(i as int), instrument),
            forall|j: int|
                0 <= j < r@.len() ==> -BEATS_PER_LOOP < #[trigger] r@[j] < BEATS_PER_LOOP,
        decreases user_hits.len() - i,
    {
        let hit = user_hits[i];
        proof {
            assert(user_hits@.take(i + 1).drop_last() =~= user_hits@.take(i as int));
            assert(user_hits@.take(i + 1).last() == user_hits@[i as int]);
        }
        if hit.instrument == instrument {
            let b = hit.beat();
            r.push(b);
        }
        i = i + 1;
    }
    proof {
        assert(user_hits@.take(user_hits@.len() as int) =~= user_hits@);
    }
    r
}

/// The accuracy of one hit measured against a single note on its own.
pub open spec fn hit_vs_single_note(user: int, note: i64) -> Accuracy {
    single_hit_accuracy(user, seq![note])
}

/// First-match semantics: the outcome of the earliest hit that is not a
/// `Miss` against this note, or `Miss` when every hit misses it.
pub open spec fn first_non_miss(users: Seq<i64>, note: i64) -> Accuracy
    decreases users.len(),
{
    if users.len() == 0 {
        Accuracy::Miss
    } else if hit_vs_single_note(users[0] as int, note) != Accuracy::Miss {
        hit_vs_single_note(users[0] as int, note)
    } else {
        first_non_miss(users.drop_first(), note)
    }
}

/// The verdict for one note of the loop: `Unknown` while playback has not
/// yet reached it, otherwise the first-match outcome over the user's hits.
pub open spec fn note_performance(users: Seq<i64>, note: i64, cutoff: int) -> Accuracy {
    if note > cutoff {
        Accuracy::Unknown
    } else {
        first_non_miss(users, note)
    }
}

proof fn lemma_first_non_miss_skip(users: Seq<i64>, note: i64, j: int)
    requires
        0 <= j <= users.len(),
        forall|k: int|
            0 <= k < j ==> hit_vs_single_note(#[trigger] users[k] as int, note) == Accuracy::Miss,
    ensures
        first_non_miss(users, note) == first_non_miss(users.skip(j), note),
    decreases j,
{
    if j == 0 {
        assert(users.skip(0) =~= users);
    } else {
        lemma_first_non_miss_skip(users, note, j - 1);
        let s = users.skip(j - 1);
        assert(s[0] == users[j - 1]);
        assert(hit_vs_single_note(s[0] as int, note) == Accuracy::Miss);
        assert(s.drop_first() =~= users.skip(j));
    }
}

/// One verdict per expected note, in note order: `Unknown` for notes after
/// the cutoff beat, otherwise the outcome of the first hit that is not a
/// miss for that note (`Miss` when there is none).
#[verifier::loop_isolation(false)]
pub fn compute_loop_performance_for_voice(
    user_hits: &Vec<i64>,
    desired_hits: &Vec<i64>,
    loop_current_beat: i64,
) -> (r: Vec<Accuracy>)
    requires
        forall|i: int|
            0 <= i < user_hits@.len() ==> -MAX_TICK <= #[trigger] user_hits@[i] <= MAX_TICK,
        forall|i: int|
            0 <= i < desired_hits@.len() ==> -MAX_TICK <= #[trigger] desired_hits@[i] <= MAX_TICK,
    ensures
        r@.len() == desired_hits@.len(),
        forall|i: int|
            0 <= i < r@.len() ==> #[trigger] r@[i] == note_performance(
                user_hits@,
                desired_hits@[i],
                loop_current_beat as int,
            ),
{
    let mut out: Vec<Accuracy> = Vec::new();
    let mut i: usize = 0;
    while i < desired_hits.len()
        invariant
            i <= desired_hits.len(),
            out@.len() == i,
            forall|k: int|
                0 <= k < i ==> #[trigger] out@[k] == note_performance(
                    user_hits@,
                    desired_hits@[k],
                    loop_current_beat as int,
                ),
        decreases desired_hits.len() - i,
    {
        let desired_hit = desired_hits[i];
        if desired_hit > loop_current_beat {
            out.push(Accuracy::Unknown);
            i = i + 1;
            continue ;
        }
        let mut single: Vec<i64> = Vec::new();
        single.push(desired_hit);
        proof {
            assert(single@ =~= seq![desired_hit]);
        }

        let mut first_acc = Accuracy::Miss;
        let mut was_miss = true;
        let mut j: usize = 0;
        while j < user_hits.len()
            invariant
                j <= user_hits.len(),
                single@ =~= seq![desired_hit],
                was_miss ==> (forall|k: int|
                    0 <= k < j ==> hit_vs_single_note(
                        #[trigger] user_hits@[k] as int,
                        desired_hit,
                    ) == Accuracy::Miss),
                !was_miss ==> first_acc == first_non_miss(user_hits@, desired_hit)
                    && first_acc != Accuracy::Miss,
            decreases user_hits.len() - j,
        {
            if was_miss {
                let user_hit = user_hits[j];
                let (acc, _) = compute_accuracy_of_single_hit(user_hit, &single);
                if !matches!(acc, Accuracy::Miss) {
                    was_miss = false;
                    first_acc = acc;
                    proof {
                        lemma_first_non_miss_skip(user_hits@, desired_hit, j as int);
                        assert(user_hits@.skip(j as int)[0] == user_hits@[j as int]);
                    }
                }
            }
            j = j + 1;
        }
        if !was_miss {
            out.push(first_acc);
        }
        if was_miss {
            proof {
                lemma_first_non_miss_skip(user_hits@, desired_hit, user_hits@.len() as int);
                assert(user_hits@.skip(user_hits@.len() as int) =~= Seq::<i64>::empty());
            }
            out.push(Accuracy::Miss);
        }
        i = i + 1;
    }
    out
}

} // verus!

verus! {

/// Correct and total note counts for one instrument over one loop.
#[derive(Debug, PartialEq, Eq, Clone, Copy, Structural)]
pub struct ScoreTracker {
    pub num_correct: usize,
    pub num_notes: usize,
}

impl ScoreTracker {
    /// An empty score: nothing expected, nothing hit.
    pub fn new() -> (r: ScoreTracker)
        ensures
            r.num_correct == 0,
            r.num_notes == 0,
    {
        ScoreTracker { num_correct: 0, num_notes: 0 }
    }

    /// The correct-to-total ratio in per-mille, rounded down; `None` when no
    /// notes were expected (rather than propagating a division by zero).
    pub fn ratio(self) -> (r: Option<usize>)
        requires
            self.num_correct <= usize::MAX / 1000,
        ensures
            self.num_notes == 0 ==> r is None,
            self.num_notes > 0 ==> (r matches Some(p) && p == 1000 * (self.num_correct as int) / (
            self.num_notes as int)),
    {
        if self.num_notes == 0 {
            None
        } else {
            Some((self.num_correct * 1000) / self.num_notes)
        }
    }
}

/// Per-instrument scores for the most recently completed loop.
#[derive(Debug, PartialEq, Eq, Clone, Copy, Structural)]
pub struct LastLoopSummary {
    pub hihat: ScoreTracker,
    pub snare: ScoreTracker,
    pub kick: ScoreTracker,
    pub open_hihat: ScoreTracker,
    pub ride: ScoreTracker,
    pub crash: ScoreTracker,
    pub tom1: ScoreTracker,
    pub tom2: ScoreTracker,
    pub tom3: ScoreTracker,
    pub pedal_hihat: ScoreTracker,
}

impl LastLoopSummary {
    /// The score of one instrument.
    pub open spec fn tracker_of(self, instrument: Instrument) -> ScoreTracker {
        match instrument {
            Instrument::ClosedHihat => self.hihat,
            Instrument::Snare => self.snare,
            Instrument::Kick => self.kick,
            Instrument::OpenHihat => self.open_hihat,
            Instrument::Ride => self.ride,
            Instrument::Crash => self.crash,
            Instrument::Tom1 => self.tom1,
            Instrument::Tom2 => self.tom2,
            Instrument::Tom3 => self.tom3,
            Instrument::PedalHiHat => self.pedal_hihat,
        }
    }

    /// This summary with one instrument's score replaced.
    pub open spec fn with_tracker(self, instrument: Instrument, st: ScoreTracker) -> LastLoopSummary {
        match instrument {
            Instrument::ClosedHihat => LastLoopSummary { hihat: st, ..self },
            Instrument::Snare => LastLoopSummary { snare: st, ..self },
            Instrument::Kick => LastLoopSummary { kick: st, ..self },
            Instrument::OpenHihat => LastLoopSummary { open_hihat: st, ..self },
            Instrument::Ride => LastLoopSummary { ride: st, ..self },
            Instrument::Crash => LastLoopSummary { crash: st, ..self },
            Instrument::Tom1 => LastLoopSummary { tom1: st, ..self },
            Instrument::Tom2 => LastLoopSummary { tom2: st, ..self },
            Instrument::Tom3 => LastLoopSummary { tom3: st, ..self },
            Instrument::PedalHiHat => LastLoopSummary { pedal_hihat: st, ..self },
        }
    }

    /// Sum of the correct counts over all instruments.
    pub open spec fn total_correct(self) -> int {
        self.hihat.num_correct + self.snare.num_correct + self.kick.num_correct
            + self.open_hihat.num_correct + self.ride.num_correct + self.crash.num_correct
            + self.tom1.num_correct + self.tom2.num_correct + self.tom3.num_correct
            + self.pedal_hihat.num_correct
    }

    /// Sum of the note counts over all instruments.
    pub open spec fn total_notes(self) -> int {
        self.hihat.num_notes + self.snare.num_notes + self.kick.num_notes
            + self.open_hihat.num_notes + self.ride.num_notes + self.crash.num_notes
            + self.tom1.num_notes + self.tom2.num_notes + self.tom3.num_notes
            + self.pedal_hihat.num_notes
    }

    /// A summary with an empty score for every instrument.
    pub fn new() -> (r: LastLoopSummary)
        ensures
            forall|ins: Instrument|
                (#[trigger] r.tracker_of(ins)).num_correct == 0 && r.tracker_of(ins).num_notes
                    == 0,
    {
        let zero = ScoreTracker { num_correct: 0, num_notes: 0 };
        LastLoopSummary {
            hihat: zero,
            snare: zero,
            kick: zero,
            open_hihat: zero,
            ride: zero,
            crash: zero,
            tom1: zero,
            tom2: zero,
            tom3: zero,
            pedal_hihat: zero,
        }
    }

    /// The score of one instrument.
    pub fn get_score_tracker(&self, instrument: &Instrument) -> (r: &ScoreTracker)
        ensures
            *r == self.tracker_of(*instrument),
    {
        match instrument {
            Instrument::ClosedHihat => &self.hihat,
            Instrument::Snare => &self.snare,
            Instrument::Kick => &self.kick,
            Instrument::OpenHihat => &self.open_hihat,
            Instrument::Ride => &self.ride,
            Instrument::Crash => &self.crash,
            Instrument::Tom1 => &self.tom1,
            Instrument::Tom2 => &self.tom2,
            Instrument::Tom3 => &self.tom3,
            Instrument::PedalHiHat => &self.pedal_hihat,
        }
    }

    /// Mutable access to the score of one instrument.
    fn get_mut_score_tracker(&mut self, instrument: &Instrument) -> (r: &mut ScoreTracker)
        ensures
            *r == old(self).tracker_of(*instrument),
            *final(self) == old(self).with_tracker(*instrument, *final(r)),
    {
        match instrument {
            Instrument::ClosedHihat => &mut self.hihat,
            Instrument::Snare => &mut self.snare,
            Instrument::Kick => &mut self.kick,
            Instrument::OpenHihat => &mut self.open_hihat,
            Instrument::Ride => &mut self.ride,
            Instrument::Crash => &mut self.crash,
            Instrument::Tom1 => &mut self.tom1,
            Instrument::Tom2 => &mut self.tom2,
            Instrument::Tom3 => &mut self.tom3,
            Instrument::PedalHiHat => &mut self.pedal_hihat,
        }
    }

    /// Replaces the score of one instrument.
    pub fn set_score_tracker(&mut self, instrument: &Instrument, score_tracker: ScoreTracker)
        ensures
            *final(self) == old(self).with_tracker(*instrument, score_tracker),
    {
        let to_update: &mut ScoreTracker = self.get_mut_score_tracker(instrument);
        *to_update = score_tracker;
    }

    /// The scores of all instruments combined into one.
    pub fn total(self) -> (r: ScoreTracker)
        requires
            self.total_correct() <= usize::MAX,
            self.total_notes() <= usize::MAX,
        ensures
            r.num_correct == self.total_correct(),
            r.num_notes == self.total_notes(),
    {
        let mut combined = ScoreTracker::new();
        combined.num_correct = self.hihat.num_correct + self.snare.num_correct
            + self.kick.num_correct + self.open_hihat.num_correct + self.ride.num_correct
            + self.crash.num_correct + self.tom1.num_correct + self.tom2.num_correct
            + self.tom3.num_correct + self.pedal_hihat.num_correct;
        combined.num_notes = self.hihat.num_notes + self.snare.num_notes + self.kick.num_notes
            + self.open_hihat.num_notes + self.ride.num_notes + self.crash.num_notes
            + self.tom1.num_notes + self.tom2.num_notes + self.tom3.num_notes
            + self.pedal_hihat.num_notes;
        combined
    }
}

} // verus!

verus! {

/// How many of the hits land `Correct` (strictly, not early or late) when
/// each is latency-adjusted and scored independently against the full note
/// list.
pub open spec fn count_correct(users: Seq<i64>, notes: Seq<i64>, latency: int) -> int
    decreases users.len(),
{
    if users.len() == 0 {
        0
    } else {
        count_correct(users.drop_last(), notes, latency) + if single_hit_accuracy(
            users.last() + latency,
            notes,
        ) == Accuracy::Correct {
            1int
        } else {
            0int
        }
    }
}

/// Scores one instrument: counts the strictly correct hits among `timings`
/// against `notes`, with the configured latency added to each hit.
#[verifier::loop_isolation(false)]
fn score_voice(timings: &Vec<i64>, notes: &Vec<i64>, audio_latency: i64) -> (st: ScoreTracker)
    requires
        forall|i: int|
            0 <= i < timings@.len() ==> -BEATS_PER_LOOP <= #[trigger] timings@[i]
                <= BEATS_PER_LOOP,
        forall|i: int| 0 <= i < notes@.len() ==> -MAX_TICK <= #[trigger] notes@[i] <= MAX_TICK,
        -MAX_TICK + BEATS_PER_LOOP <= audio_latency <= MAX_TICK - BEATS_PER_LOOP,
    ensures
        st.num_correct == count_correct(timings@, notes@, audio_latency as int),
        st.num_notes == notes@.len(),
{
    let mut num_correct: usize = 0;
    let mut i: usize = 0;
    while i < timings.len()
        invariant
            i <= timings.len(),
            num_correct <= i,
            num_correct == count_correct(timings@.take(i as int), notes@, audio_latency as int),
        decreases timings.len() - i,
    {
        proof {
            assert(timings@.take(i + 1).drop_last() =~= timings@.take(i as int));
            assert(timings@.take(i + 1).last() == timings@[i as int]);
        }
        let (acc, _) = compute_accuracy_of_single_hit(timings[i] + audio_latency, notes);
        if matches!(acc, Accuracy::Correct) {
            num_correct = num_correct + 1;
        }
        i = i + 1;
    }
    proof {
        assert(timings@.take(timings@.len() as int) =~= timings@);
    }
    ScoreTracker { num_correct, num_notes: notes.len() }
}

/// Scores every instrument of the loop: for each, `num_correct` counts the
/// user hits whose independent, latency-adjusted accuracy against the
/// instrument's full note list is strictly `Correct`, and `num_notes` is the
/// number of expected notes.
pub fn compute_last_loop_summary(
    user_hits: &Vec<UserHit>,
    desired_hits: &Voices,
    audio_latency: i64,
) -> (r: LastLoopSummary)
    requires
        desired_hits.wf(),
        forall|i: int|
            0 <= i < user_hits@.len() ==> -MAX_TICK <= (#[trigger] user_hits@[i]).clock_tick
                <= MAX_TICK,
        -MAX_TICK + BEATS_PER_LOOP <= audio_latency <= MAX_TICK - BEATS_PER_LOOP,
    ensures
        forall|ins: Instrument|
            (#[trigger] r.tracker_of(ins)).num_correct == count_correct(
                hit_timings(user_hits@, ins),
                desired_hits.beats_of(ins),
                audio_latency as int,
            ) && r.tracker_of(ins).num_notes == desired_hits.beats_of(ins).len(),
{
    let mut out = LastLoopSummary::new();

    let instruments = all_instruments();
    let mut idx: usize = 0;
    while idx < instruments.len()
        invariant
            instruments@ == all_instruments_spec(),
            idx <= instruments@.len(),
            desired_hits.wf(),
            forall|i: int|
                0 <= i < user_hits@.len() ==> -MAX_TICK <= (#[trigger] user_hits@[i]).clock_tick
                    <= MAX_TICK,
            -MAX_TICK + BEATS_PER_LOOP <= audio_latency <= MAX_TICK - BEATS_PER_LOOP,
            forall|k: int|
                0 <= k < idx ==> (#[trigger] out.tracker_of(all_instruments_spec()[k])).num_correct
                    == count_correct(
                    hit_timings(user_hits@, all_instruments_spec()[k]),
                    desired_hits.beats_of(all_instruments_spec()[k]),
                    audio_latency as int,
                ) && out.tracker_of(all_instruments_spec()[k]).num_notes == desired_hits.beats_of(
                    all_instruments_spec()[k],
                ).len(),
        decreases instruments@.len() - idx,
    {
        let instrument = instruments[idx];
        let user_timings = get_user_hit_timings_by_instrument(user_hits, instrument);
        let desired_timings = desired_hits.get_instrument_beats(&instrument);
        let st = score_voice(&user_timings, desired_timings, audio_latency);
        let ghost out_prev = out;
        out.set_score_tracker(&instrument, st);
        proof {
            assert forall|k: int|
                0 <= k < idx + 1 implies (#[trigger] out.tracker_of(
                all_instruments_spec()[k],
            )).num_correct == count_correct(
                hit_timings(user_hits@, all_instruments_spec()[k]),
                desired_hits.beats_of(all_instruments_spec()[k]),
                audio_latency as int,
            ) && out.tracker_of(all_instruments_spec()[k]).num_notes == desired_hits.beats_of(
                all_instruments_spec()[k],
            ).len() by {
                let insk = all_instruments_spec()[k];
                lemma_with_tracker_preserves(out_prev, instrument, st, insk);
                if k == idx as int {
                    assert(insk == instrument);
                }
            }
        }
        idx = idx + 1;
    }
    proof {
        assert forall|ins: Instrument|
            (#[trigger] out.tracker_of(ins)).num_correct == count_correct(
                hit_timings(user_hits@, ins),
                desired_hits.beats_of(ins),
                audio_latency as int,
            ) && out.tracker_of(ins).num_notes == desired_hits.beats_of(ins).len() by {
            let s = all_instruments_spec();
            match ins {
                Instrument::ClosedHihat => assert(s[0] == ins),
                Instrument::Snare => assert(s[1] == ins),
                Instrument::Kick => assert(s[2] == ins),
                Instrument::OpenHihat => assert(s[3] == ins),
                Instrument::Ride => assert(s[4] == ins),
                Instrument::Crash => assert(s[5] == ins),
                Instrument::Tom1 => assert(s[6] == ins),
                Instrument::Tom2 => assert(s[7] == ins),
                Instrument::Tom3 => assert(s[8] == ins),
                Instrument::PedalHiHat => assert(s[9] == ins),
            }
        }
    }
    out
}

proof fn lemma_with_tracker_preserves(
    o: LastLoopSummary,
    a: Instrument,
    st: ScoreTracker,
    b: Instrument,
)
    ensures
        o.with_tracker(a, st).tracker_of(b) == if a == b {
            st
        } else {
            o.tracker_of(b)
        },
{
}

/// The loop a hit counts toward: hits struck within `MISS_MARGIN` before a
/// loop boundary belong to the loop they were aimed at, not the one the raw
/// tick falls in.
pub open spec fn loop_index_of_hit(clock_tick: int) -> int {
    clock::trunc_div(clock_tick + MISS_MARGIN, BEATS_PER_LOOP as int)
}

/// The hits that count toward loop `idx`, in recording order.
pub open spec fn hits_in_nth_loop(hits: Seq<UserHit>, idx: int) -> Seq<UserHit>
    decreases hits.len(),
{
    if hits.len() == 0 {
        Seq::empty()
    } else {
        let rest = hits_in_nth_loop(hits.drop_last(), idx);
        if loop_index_of_hit(hits.last().clock_tick as int) == idx {
            rest.push(hits.last())
        } else {
            rest
        }
    }
}

/// The hits that count toward loop `desired_loop_idx`, in recording order.
#[verifier::loop_isolation(false)]
pub fn get_hits_from_nth_loop(user_hits: &Vec<UserHit>, desired_loop_idx: i64) -> (r: Vec<UserHit>)
    requires
        forall|i: int|
            0 <= i < user_hits@.len() ==> -MAX_TICK <= (#[trigger] user_hits@[i]).clock_tick
                <= MAX_TICK,
    ensures
        r@ == hits_in_nth_loop(user_hits@, desired_loop_idx as int),
{
    let mut r: Vec<UserHit> = Vec::new();
    let mut i: usize = 0;
    while i < user_hits.len()
        invariant
            i <= user_hits.len(),
            r@ == hits_in_nth_loop(user_hits@.take(i as int), desired_loop_idx as int),
        decreases user_hits.len() - i,
    {
        let hit = user_hits[i];
        proof {
            assert(user_hits@.take(i + 1).drop_last() =~= user_hits@.take(i as int));
            assert(user_hits@.take(i + 1).last() == user_hits@[i as int]);
        }
        let loop_num_for_hit = clock::div_toward_zero(hit.clock_tick + MISS_MARGIN, BEATS_PER_LOOP);
        if loop_num_for_hit == desired_loop_idx {
            r.push(hit);
        }
        i = i + 1;
    }
    proof {
        assert(user_hits@.take(user_hits@.len() as int) =~= user_hits@);
    }
    r
}

} // verus!
