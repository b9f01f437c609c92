//! Lookahead scheduling: which notes fall inside a newly opened window of
//! the tick clock, and at which loop repetition each must sound.
//!
//! A scheduling window is the half-open tick interval
//! `(last_scheduled_tick, tick_to_schedule]`. A note is emitted once for
//! every loop repetition whose copy of the note lands inside the window;
//! when the window crosses the end of the loop, notes before the boundary
//! sound in the current repetition and notes after it in the next one.

use vstd::prelude::*;

use crate::clock::{div_toward_zero, rem_toward_zero, trunc_div, trunc_rem};
use crate::consts::{BEATS_PER_LOOP, MAX_TICK};
use crate::voices::Instrument;

verus! {

/// What should sound: an instrument's sample or the metronome click.
#[derive(Clone, Copy, Debug, PartialEq, Eq, Structural)]
pub enum Sound {
    Instrument(Instrument),
    Metronome,
}

/// One "play this sound at this absolute tick" instruction.
#[derive(Clone, Copy, Debug, PartialEq, Eq, Structural)]
pub struct PlayRequest {
    /// What to play.
    pub sound: Sound,
    /// The note's beat offset within its loop, in beat units.
    pub note: i64,
    /// Which loop repetition the note sounds in.
    pub loop_num: i64,
    /// Absolute tick to start at: `loop_num * BEATS_PER_LOOP + note`.
    pub tick: i64,
}

/// The request that plays `note` in repetition `loop_num`.
pub open spec fn play_req(sound: Sound, note: i64, loop_num: int) -> PlayRequest {
    PlayRequest {
        sound,
        note,
        loop_num: loop_num as i64,
        tick: (loop_num * (BEATS_PER_LOOP as int) + note) as i64,
    }
}

/// Whether repetition `loop_num` of `note` lies in the half-open tick
/// window `(prev, next]`.
pub open spec fn in_window(note: int, loop_num: int, prev: int, next: int) -> bool {
    prev < loop_num * (BEATS_PER_LOOP as int) + note <= next
}

/// The requests one note contributes to the window `(prev, next]`: the
/// plain in-window check, plus — when the window wraps past the end of the
/// loop — the stretch up to the boundary in the current repetition and the
/// stretch after it in the next.
pub open spec fn note_requests(sound: Sound, note: i64, prev: int, next: int) -> Seq<PlayRequest> {
    let p = trunc_rem(prev, BEATS_PER_LOOP as int);
    let q = trunc_rem(next, BEATS_PER_LOOP as int);
    let l = trunc_div(prev, BEATS_PER_LOOP as int);
    (if p < note <= q {
        seq![play_req(sound, note, l)]
    } else {
        Seq::empty()
    }) + (if q < p {
        (if p < note <= BEATS_PER_LOOP {
            seq![play_req(sound, note, l)]
        } else {
            Seq::empty()
        }) + (if 0 <= note <= q {
            seq![play_req(sound, note, l + 1)]
        } else {
            Seq::empty()
        })
    } else {
        Seq::empty()
    })
}

/// The requests a whole note list contributes, in note order.
pub open spec fn voice_requests(sound: Sound, notes: Seq<i64>, prev: int, next: int) -> Seq<
    PlayRequest,
>
    decreases notes.len(),
{
    if notes.len() == 0 {
        Seq::empty()
    } else {
        voice_requests(sound, notes.drop_last(), prev, next) + note_requests(
            sound,
            notes.last(),
            prev,
            next,
        )
    }
}

/// Whether the request list schedules repetition `loop_num` of `note`.
pub open spec fn scheduled_in(
    rs: Seq<PlayRequest>,
    sound: Sound,
    note: i64,
    loop_num: int,
) -> bool {
    exists|j: int| 0 <= j < rs.len() && rs[j] == play_req(sound, note, loop_num)
}

/// Builds the request that plays `note` in repetition `loop_num`.
fn make_request(sound: Sound, note: i64, loop_num: i64) -> (r: PlayRequest)
    requires
        0 <= note <= BEATS_PER_LOOP,
        0 <= loop_num,
        loop_num * (BEATS_PER_LOOP as int) + note <= i64::MAX,
    ensures
        r == play_req(sound, note, loop_num as int),
{
    PlayRequest { sound, note, loop_num, tick: loop_num * BEATS_PER_LOOP + note }
}

/// Emits one play request for every copy of a note of `notes` that falls in
/// the scheduling window `(last_scheduled_tick, tick_to_schedule]`, walking
/// the notes in order.
#[verifier::loop_isolation(false)]
pub fn schedule_audio(
    notes: &Vec<i64>,
    sound: Sound,
    last_scheduled_tick: i64,
    tick_to_schedule: i64,
) -> (r: Vec<PlayRequest>)
    requires
        -BEATS_PER_LOOP < last_scheduled_tick <= MAX_TICK,
        -BEATS_PER_LOOP < tick_to_schedule <= MAX_TICK,
        forall|i: int| 0 <= i < notes@.len() ==> 0 <= #[trigger] notes@[i] < BEATS_PER_LOOP,
    ensures
        r@ == voice_requests(
            sound,
            notes@,
            last_scheduled_tick as int,
            tick_to_schedule as int,
        ),
{
    let prev_beat = rem_toward_zero(last_scheduled_tick, BEATS_PER_LOOP);
    let next_beat = rem_toward_zero(tick_to_schedule, BEATS_PER_LOOP);
    let loop_num = div_toward_zero(last_scheduled_tick, BEATS_PER_LOOP);
    proof {
        assert(loop_num >= 0) by {
            if last_scheduled_tick < 0 {
                assert((-(last_scheduled_tick as int)) / (BEATS_PER_LOOP as int) == 0);
            }
        }
        assert(loop_num * (BEATS_PER_LOOP as int) <= MAX_TICK) by {
            if last_scheduled_tick >= 0 {
                assert(BEATS_PER_LOOP as int * (last_scheduled_tick as int / (
                BEATS_PER_LOOP as int)) + last_scheduled_tick as int % (BEATS_PER_LOOP as int)
                    == last_scheduled_tick as int);
                assert(last_scheduled_tick as int % (BEATS_PER_LOOP as int) >= 0);
            }
        }
    }
    let mut out: Vec<PlayRequest> = Vec::new();
    let mut i: usize = 0;
    while i < notes.len()
        invariant
            i <= notes@.len(),
            out@ == voice_requests(
                sound,
                notes@.take(i as int),
                last_scheduled_tick as int,
                tick_to_schedule as int,
            ),
        decreases notes@.len() - i,
    {
        let note = notes[i];
        let ghost before = out@;
        proof {
            assert(notes@.take(i + 1).drop_last() =~= notes@.take(i as int));
            assert(notes@.take(i + 1).last() == notes@[i as int]);
        }
        if note > prev_beat && note <= next_beat {
            out.push(make_request(sound, note, loop_num));
        }
        if next_beat < prev_beat {
            if note > prev_beat && note <= BEATS_PER_LOOP {
                out.push(make_request(sound, note, loop_num));
            }
            if note >= 0 && note <= next_beat {
                out.push(make_request(sound, note, loop_num + 1));
            }
        }
        proof {
            assert(out@ =~= before + note_requests(
                sound,
                note,
                last_scheduled_tick as int,
                tick_to_schedule as int,
            ));
        }
        i = i + 1;
    }
    proof {
        assert(notes@.take(notes@.len() as int) =~= notes@);
    }
    out
}

} // verus!

verus! {

/// No loop repetition beyond this index can arise from an in-range tick.
pub open spec fn max_loop_index() -> int {
    MAX_TICK as int / (BEATS_PER_LOOP as int) + 1
}

/// A window narrower than one loop contains at most one repetition of a
/// note.
proof fn lemma_window_unique_loop(note: int, l1: int, l2: int, prev: int, next: int)
    requires
        next - prev < BEATS_PER_LOOP,
        in_window(note, l1, prev, next),
        in_window(note, l2, prev, next),
    ensures
        l1 == l2,
{
    let bpl = BEATS_PER_LOOP as int;
    assert(l1 * bpl - l2 * bpl == (l1 - l2) * bpl) by (nonlinear_arith);
    if l1 > l2 {
        assert((l1 - l2) * bpl >= bpl) by (nonlinear_arith)
            requires
                l1 - l2 >= 1,
                bpl > 0,
        ;
    }
    if l2 > l1 {
        assert((l2 - l1) * bpl >= bpl) by (nonlinear_arith)
            requires
                l2 - l1 >= 1,
                bpl > 0,
        ;
        assert(l2 * bpl - l1 * bpl == (l2 - l1) * bpl) by (nonlinear_arith);
    }
}

/// The requests of one note are exactly the repetitions of that note that
/// lie inside the window: at most one, and repetition `l` is emitted if and
/// only if it falls in `(prev, next]`.
proof fn lemma_note_window(sound: Sound, note: i64, prev: int, next: int)
    requires
        -BEATS_PER_LOOP < prev <= next,
        next - prev < BEATS_PER_LOOP,
        next <= MAX_TICK,
        0 <= note < BEATS_PER_LOOP,
    ensures
        note_requests(sound, note, prev, next).len() <= 1,
        forall|l: int|
            0 <= l <= max_loop_index() ==> (scheduled_in(
                note_requests(sound, note, prev, next),
                sound,
                note,
                l,
            ) <==> in_window(note as int, l, prev, next)),
{
    let bpl = BEATS_PER_LOOP as int;
    let p = trunc_rem(prev, bpl);
    let q = trunc_rem(next, bpl);
    let l0 = trunc_div(prev, bpl);
    let rs = note_requests(sound, note, prev, next);

    assert(prev == l0 * bpl + p) by {
        if prev >= 0 {
            assert(bpl * (prev / bpl) + prev % bpl == prev);
        }
    }
    assert(0 <= l0) by {
        if prev < 0 {
            assert((-prev) / bpl == 0);
        }
    }
    assert(p < bpl && -bpl < p);
    assert(prev >= 0 ==> 0 <= p);

    // Where `next` sits relative to repetition l0.
    assert(next == (next / bpl) * bpl + next % bpl) by {
        assert(bpl * (next / bpl) + next % bpl == next);
    }

    if next >= 0 {
        let m = next / bpl;
        assert(q == next % bpl);
        assert(0 <= q < bpl);
        // next - prev < bpl pins m to l0 or l0 + 1.
        assert(l0 <= m && m <= l0 + 1) by {
            assert(m * bpl + q == next);
            assert(l0 * bpl + p == prev);
            if m < l0 {
                assert((l0 - m) * bpl >= bpl) by (nonlinear_arith)
                    requires
                        l0 - m >= 1,
                        bpl > 0,
                ;
                assert(l0 * bpl - m * bpl == (l0 - m) * bpl) by (nonlinear_arith);
            }
            if m > l0 + 1 {
                assert((m - l0) * bpl >= 2 * bpl) by (nonlinear_arith)
                    requires
                        m - l0 >= 2,
                        bpl > 0,
                ;
                assert(m * bpl - l0 * bpl == (m - l0) * bpl) by (nonlinear_arith);
            }
        }
        if m == l0 {
            // Window stays inside repetition l0: no wrap.
            assert(q - p == next - prev);
            assert(q >= p);
            assert(rs =~= (if p < note <= q {
                seq![play_req(sound, note, l0)]
            } else {
                Seq::<PlayRequest>::empty()
            }));
            assert forall|l: int|
                0 <= l <= max_loop_index() implies (scheduled_in(rs, sound, note, l)
                <==> in_window(note as int, l, prev, next)) by {
                if in_window(note as int, l, prev, next) {
                    assert(l <= l0) by {
                        assert(l * bpl + note <= next);
                        assert((l0 + 1) * bpl == l0 * bpl + bpl) by (nonlinear_arith);
                        assert(next < (l0 + 1) * bpl);
                        assert(l * bpl < (l0 + 1) * bpl);
                        assert(l < l0 + 1) by (nonlinear_arith)
                            requires
                                l * bpl < (l0 + 1) * bpl,
                                bpl > 0,
                        ;
                    }
                    assert(l0 <= l) by {
                        if prev >= 0 {
                            assert(p >= 0);
                            assert(l * bpl + note > prev >= l0 * bpl);
                            assert((l0 - 1) * bpl == l0 * bpl - bpl) by (nonlinear_arith);
                            assert(l * bpl > l0 * bpl - note);
                            assert(l * bpl > (l0 - 1) * bpl);
                            assert(l > l0 - 1) by (nonlinear_arith)
                                requires
                                    l * bpl > (l0 - 1) * bpl,
                                    bpl > 0,
                            ;
                        } else {
                            assert(l0 == 0);
                        }
                    }
                    assert(l == l0);
                    assert(p < note <= q);
                    assert(rs[0] == play_req(sound, note, l0));
                    assert(scheduled_in(rs, sound, note, l));
                }
                if scheduled_in(rs, sound, note, l) {
                    let j = choose|j: int|
                        0 <= j < rs.len() && rs[j] == play_req(sound, note, l);
                    assert(rs.len() == 1 && p < note <= q);
                    assert(rs[0].loop_num == l0 as i64);
                    assert(l as i64 == l0 as i64);
                    assert(l == l0);
                    assert(in_window(note as int, l0, prev, next));
                }
            }
        } else {
            // m == l0 + 1: the window crosses the end of repetition l0.
            assert(q == next - (l0 + 1) * bpl) by {
                assert((l0 + 1) * bpl == l0 * bpl + bpl) by (nonlinear_arith);
                assert(m * bpl == (l0 + 1) * bpl) by (nonlinear_arith)
                    requires
                        m == l0 + 1,
                ;
            }
            assert(q < p) by {
                assert((l0 + 1) * bpl == l0 * bpl + bpl) by (nonlinear_arith);
            }
            assert(0 <= q);
            assert(0 <= p) by {
                if prev < 0 {
                    // prev < 0 with next >= 0 and next - prev < bpl keeps m == 0 == l0
                    assert(l0 == 0 && p == prev);
                    assert(m >= 1);
                    assert(m * bpl <= next) by {
                        assert(0 <= next % bpl);
                    }
                    assert(m * bpl >= bpl) by (nonlinear_arith)
                        requires
                            m >= 1,
                            bpl > 0,
                    ;
                    assert(next >= bpl);
                    assert(false);
                }
            }
            assert(!(p < note <= q));
            assert(rs =~= (if p < note <= BEATS_PER_LOOP {
                seq![play_req(sound, note, l0)]
            } else {
                Seq::<PlayRequest>::empty()
            }) + (if 0 <= note <= q {
                seq![play_req(sound, note, l0 + 1)]
            } else {
                Seq::<PlayRequest>::empty()
            }));
            assert(rs.len() <= 1);
            assert forall|l: int|
                0 <= l <= max_loop_index() implies (scheduled_in(rs, sound, note, l)
                <==> in_window(note as int, l, prev, next)) by {
                assert((l0 + 1) * bpl == l0 * bpl + bpl) by (nonlinear_arith);
                if in_window(note as int, l, prev, next) {
                    // l is l0 (tail of the loop) or l0 + 1 (head of the next)
                    if note > p {
                        assert(in_window(note as int, l0, prev, next)) by {
                            assert(l0 * bpl + note <= l0 * bpl + bpl <= next);
                        }
                        lemma_window_unique_loop(note as int, l, l0, prev, next);
                        assert(rs[0] == play_req(sound, note, l0));
                    } else {
                        assert(in_window(note as int, l0 + 1, prev, next)) by {
                            assert((l0 + 1) * bpl + note >= l0 * bpl + bpl > prev);
                            assert((l0 + 1) * bpl + note <= next <==> note <= q);
                            assert(note <= q) by {
                                if note > q {
                                    // l*bpl + note in (prev, next], note in (q, p]
                                    assert(l * bpl > prev - note >= prev - p == l0 * bpl);
                                    assert(l > l0) by (nonlinear_arith)
                                        requires
                                            l * bpl > l0 * bpl,
                                            bpl > 0,
                                    ;
                                    assert(l * bpl >= (l0 + 1) * bpl) by (nonlinear_arith)
                                        requires
                                            l >= l0 + 1,
                                            bpl > 0,
                                    ;
                                    assert(l * bpl + note > next);
                                    assert(false);
                                }
                            }
                        }
                        lemma_window_unique_loop(note as int, l, l0 + 1, prev, next);
                        assert(rs[rs.len() - 1] == play_req(sound, note, l0 + 1));
                    }
                    assert(scheduled_in(rs, sound, note, l));
                }
                if scheduled_in(rs, sound, note, l) {
                    let j = choose|j: int|
                        0 <= j < rs.len() && rs[j] == play_req(sound, note, l);
                    if rs[j].loop_num == l0 as i64 {
                        assert(l == l0);
                        assert(p < note);
                        assert(in_window(note as int, l0, prev, next)) by {
                            assert(l0 * bpl + note <= l0 * bpl + bpl <= next);
                        }
                    } else {
                        assert(rs[j].loop_num == (l0 + 1) as i64);
                        assert(l == l0 + 1);
                        assert(0 <= note <= q);
                        assert(in_window(note as int, l0 + 1, prev, next)) by {
                            assert((l0 + 1) * bpl + note >= l0 * bpl + bpl > prev);
                        }
                    }
                }
            }
        }
    } else {
        // next < 0: the whole window sits before tick 0; nothing to play.
        assert(q == -((-next) % bpl) && q == next) by {
            assert((-next) < bpl);
            assert((-next) % bpl == -next);
        }
        assert(p == prev && l0 == 0) by {
            assert((-prev) % bpl == -prev && (-prev) / bpl == 0);
        }
        assert(q >= p);
        assert(!(p < note <= q));
        assert(rs =~= Seq::<PlayRequest>::empty());
        assert forall|l: int|
            0 <= l <= max_loop_index() implies (scheduled_in(rs, sound, note, l) <==> in_window(
            note as int,
            l,
            prev,
            next,
        )) by {
            assert(!scheduled_in(rs, sound, note, l));
            assert(l * bpl >= 0) by (nonlinear_arith)
                requires
                    l >= 0,
                    bpl > 0,
            ;
            assert(!in_window(note as int, l, prev, next));
        }
    }
}

} // verus!

verus! {

/// A scheduling pass over `(prev, next]` emits exactly the in-window
/// repetitions of the notes: repetition `l` of note `n` is scheduled if and
/// only if `n` is one of the notes and `prev < l * BEATS_PER_LOOP + n <=
/// next`; and every request carries one of the notes and the given sound.
pub proof fn lemma_voice_requests_characterization(
    sound: Sound,
    notes: Seq<i64>,
    prev: int,
    next: int,
)
    requires
        -BEATS_PER_LOOP < prev <= next,
        next - prev < BEATS_PER_LOOP,
        next <= MAX_TICK,
        forall|i: int| 0 <= i < notes.len() ==> 0 <= #[trigger] notes[i] < BEATS_PER_LOOP,
    ensures
        forall|n: i64, l: int|
            0 <= l <= max_loop_index() ==> (scheduled_in(
                voice_requests(sound, notes, prev, next),
                sound,
                n,
                l,
            ) <==> (notes.contains(n) && in_window(n as int, l, prev, next))),
        forall|j: int|
            0 <= j < voice_requests(sound, notes, prev, next).len() ==> notes.contains(
                (#[trigger] voice_requests(sound, notes, prev, next)[j]).note,
            ) && voice_requests(sound, notes, prev, next)[j].sound == sound,
    decreases notes.len(),
{
    let vr = voice_requests(sound, notes, prev, next);
    if notes.len() == 0 {
        assert forall|n: i64, l: int|
            0 <= l <= max_loop_index() implies (scheduled_in(vr, sound, n, l) <==> (
        notes.contains(n) && in_window(n as int, l, prev, next))) by {
            assert(!scheduled_in(vr, sound, n, l));
        }
    } else {
        let butlast = notes.drop_last();
        let last = notes.last();
        let vrb = voice_requests(sound, butlast, prev, next);
        let nr = note_requests(sound, last, prev, next);
        lemma_voice_requests_characterization(sound, butlast, prev, next);
        lemma_note_window(sound, last, prev, next);
        assert(vr == vrb + nr);

        // Every element of nr is a request for `last` with this sound.
        assert forall|j: int|
            0 <= j < nr.len() implies (#[trigger] nr[j]).note == last && nr[j].sound == sound by {
            let p = trunc_rem(prev, BEATS_PER_LOOP as int);
            let q = trunc_rem(next, BEATS_PER_LOOP as int);
            let l0 = trunc_div(prev, BEATS_PER_LOOP as int);
            assert(nr[j] == play_req(sound, last, l0) || nr[j] == play_req(sound, last, l0 + 1));
        }

        assert forall|j: int|
            0 <= j < vr.len() implies notes.contains((#[trigger] vr[j]).note) && vr[j].sound
            == sound by {
            if j < vrb.len() {
                assert(vr[j] == vrb[j]);
                assert(butlast.contains(vrb[j].note));
                let w = choose|w: int| 0 <= w < butlast.len() && butlast[w] == vrb[j].note;
                assert(notes[w] == vrb[j].note);
            } else {
                assert(vr[j] == nr[j - vrb.len()]);
                assert(vr[j].note == last);
                assert(notes[notes.len() - 1] == last);
            }
        }

        assert forall|n: i64, l: int|
            0 <= l <= max_loop_index() implies (scheduled_in(vr, sound, n, l) <==> (
        notes.contains(n) && in_window(n as int, l, prev, next))) by {
            if scheduled_in(vr, sound, n, l) {
                let j = choose|j: int| 0 <= j < vr.len() && vr[j] == play_req(sound, n, l);
                if j < vrb.len() {
                    assert(vrb[j] == play_req(sound, n, l));
                    assert(scheduled_in(vrb, sound, n, l));
                    assert(butlast.contains(n));
                    let w = choose|w: int| 0 <= w < butlast.len() && butlast[w] == n;
                    assert(notes[w] == n);
                } else {
                    assert(nr[j - vrb.len()] == play_req(sound, n, l));
                    assert(n == last);
                    assert(scheduled_in(nr, sound, last, l)) by {
                        assert(nr[j - vrb.len()] == play_req(sound, last, l));
                    }
                    assert(in_window(last as int, l, prev, next));
                    assert(notes[notes.len() - 1] == last);
                }
            }
            if notes.contains(n) && in_window(n as int, l, prev, next) {
                let w = choose|w: int| 0 <= w < notes.len() && notes[w] == n;
                if w < notes.len() - 1 {
                    assert(butlast[w] == n);
                    assert(butlast.contains(n));
                    assert(scheduled_in(vrb, sound, n, l));
                    let j = choose|j: int| 0 <= j < vrb.len() && vrb[j] == play_req(sound, n, l);
                    assert(vr[j] == play_req(sound, n, l));
                } else {
                    assert(n == last);
                    assert(scheduled_in(nr, sound, n, l));
                    let j = choose|j: int| 0 <= j < nr.len() && nr[j] == play_req(sound, n, l);
                    assert(vr[vrb.len() + j] == play_req(sound, n, l));
                }
            }
        }
    }
}

/// When the notes are pairwise distinct, one pass never emits the same
/// request twice.
pub proof fn lemma_voice_requests_no_duplicates(
    sound: Sound,
    notes: Seq<i64>,
    prev: int,
    next: int,
)
    requires
        -BEATS_PER_LOOP < prev <= next,
        next - prev < BEATS_PER_LOOP,
        next <= MAX_TICK,
        forall|i: int| 0 <= i < notes.len() ==> 0 <= #[trigger] notes[i] < BEATS_PER_LOOP,
        forall|i: int, j: int| 0 <= i < j < notes.len() ==> notes[i] != notes[j],
    ensures
        forall|j1: int, j2: int|
            0 <= j1 < j2 < voice_requests(sound, notes, prev, next).len()
                ==> #[trigger] voice_requests(sound, notes, prev, next)[j1]
                != #[trigger] voice_requests(sound, notes, prev, next)[j2],
    decreases notes.len(),
{
    let vr = voice_requests(sound, notes, prev, next);
    if notes.len() > 0 {
        let butlast = notes.drop_last();
        let last = notes.last();
        let vrb = voice_requests(sound, butlast, prev, next);
        let nr = note_requests(sound, last, prev, next);
        lemma_voice_requests_no_duplicates(sound, butlast, prev, next);
        lemma_voice_requests_characterization(sound, butlast, prev, next);
        lemma_note_window(sound, last, prev, next);
        assert forall|j1: int, j2: int|
            0 <= j1 < j2 < vr.len() implies #[trigger] vr[j1] != #[trigger] vr[j2] by {
            if j2 < vrb.len() {
                assert(vr[j1] == vrb[j1] && vr[j2] == vrb[j2]);
            } else if j1 >= vrb.len() {
                assert(j2 - vrb.len() < nr.len() && nr.len() <= 1);
                assert(false);
            } else {
                // j1 indexes an earlier note's request, j2 the last note's.
                assert(vr[j1] == vrb[j1] && vr[j2] == nr[j2 - vrb.len()]);
                assert(butlast.contains(vrb[j1].note));
                let w = choose|w: int| 0 <= w < butlast.len() && butlast[w] == vrb[j1].note;
                let p = trunc_rem(prev, BEATS_PER_LOOP as int);
                let l0 = trunc_div(prev, BEATS_PER_LOOP as int);
                assert(nr[j2 - vrb.len()] == play_req(sound, last, l0) || nr[j2 - vrb.len()]
                    == play_req(sound, last, l0 + 1));
                assert(notes[w] == vrb[j1].note && notes[notes.len() - 1] == last);
                assert(vrb[j1].note != last);
            }
        }
    }
}

/// Two consecutive scheduling passes cover the combined window exactly:
/// together they schedule precisely what one pass over the whole window
/// would, and no repetition of a note is scheduled by both passes.
pub proof fn lemma_consecutive_passes_schedule_once(
    sound: Sound,
    notes: Seq<i64>,
    first_tick: int,
    mid_tick: int,
    last_tick: int,
)
    requires
        -BEATS_PER_LOOP < first_tick <= mid_tick <= last_tick,
        last_tick - first_tick < BEATS_PER_LOOP,
        last_tick <= MAX_TICK,
        forall|i: int| 0 <= i < notes.len() ==> 0 <= #[trigger] notes[i] < BEATS_PER_LOOP,
    ensures
        forall|n: i64, l: int|
            0 <= l <= max_loop_index() ==> ((scheduled_in(
                voice_requests(sound, notes, first_tick, mid_tick),
                sound,
                n,
                l,
            ) || scheduled_in(voice_requests(sound, notes, mid_tick, last_tick), sound, n, l))
                <==> scheduled_in(voice_requests(sound, notes, first_tick, last_tick), sound, n, l)),
        forall|n: i64, l: int|
            0 <= l <= max_loop_index() ==> !(scheduled_in(
                voice_requests(sound, notes, first_tick, mid_tick),
                sound,
                n,
                l,
            ) && #[trigger] scheduled_in(
                voice_requests(sound, notes, mid_tick, last_tick),
                sound,
                n,
                l,
            )),
{
    lemma_voice_requests_characterization(sound, notes, first_tick, mid_tick);
    lemma_voice_requests_characterization(sound, notes, mid_tick, last_tick);
    lemma_voice_requests_characterization(sound, notes, first_tick, last_tick);
    assert forall|n: i64, l: int|
        0 <= l <= max_loop_index() implies ((scheduled_in(
        voice_requests(sound, notes, first_tick, mid_tick),
        sound,
        n,
        l,
    ) || scheduled_in(voice_requests(sound, notes, mid_tick, last_tick), sound, n, l))
        <==> scheduled_in(voice_requests(sound, notes, first_tick, last_tick), sound, n, l)) by {
        assert(scheduled_in(voice_requests(sound, notes, first_tick, mid_tick), sound, n, l) <==> (
        notes.contains(n) && in_window(n as int, l, first_tick, mid_tick)));
        assert(scheduled_in(voice_requests(sound, notes, mid_tick, last_tick), sound, n, l) <==> (
        notes.contains(n) && in_window(n as int, l, mid_tick, last_tick)));
        assert(scheduled_in(voice_requests(sound, notes, first_tick, last_tick), sound, n, l) <==> (
        notes.contains(n) && in_window(n as int, l, first_tick, last_tick)));
    }
    assert forall|n: i64, l: int|
        0 <= l <= max_loop_index() implies !(scheduled_in(
        voice_requests(sound, notes, first_tick, mid_tick),
        sound,
        n,
        l,
    ) && scheduled_in(voice_requests(sound, notes, mid_tick, last_tick), sound, n, l)) by {
        assert(scheduled_in(voice_requests(sound, notes, first_tick, mid_tick), sound, n, l) <==> (
        notes.contains(n) && in_window(n as int, l, first_tick, mid_tick)));
        assert(scheduled_in(voice_requests(sound, notes, mid_tick, last_tick), sound, n, l) <==> (
        notes.contains(n) && in_window(n as int, l, mid_tick, last_tick)));
    }
}

} // verus!

verus! {

/// The default playback volume of a sound, in per-mille of full volume.
pub open spec fn volume_of(sound: Sound) -> i64 {
    match sound {
        Sound::Instrument(ins) => match ins {
            Instrument::ClosedHihat => 1000,
            Instrument::Snare => 1000,
            Instrument::Kick => 1000,
            Instrument::OpenHihat => 500,
            Instrument::Ride => 150,
            Instrument::Crash => 400,
            Instrument::Tom1 => 250,
            Instrument::Tom2 => 250,
            Instrument::Tom3 => 250,
            Instrument::PedalHiHat => 500,
        },
        Sound::Metronome => 1000,
    }
}

/// The default playback volume of a sound, in per-mille of full volume.
pub fn get_volume(sound: &Sound) -> (r: i64)
    ensures
        r == volume_of(*sound),
        0 < r <= 1000,
{
    match sound {
        Sound::Instrument(ins) => match ins {
            Instrument::ClosedHihat => 1000,
            Instrument::Snare => 1000,
            Instrument::Kick => 1000,
            Instrument::OpenHihat => 500,
            Instrument::Ride => 150,
            Instrument::Crash => 400,
            Instrument::Tom1 => 250,
            Instrument::Tom2 => 250,
            Instrument::Tom3 => 250,
            Instrument::PedalHiHat => 500,
        },
        Sound::Metronome => 1000,
    }
}

} // verus!
