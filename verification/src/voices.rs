//! Instruments and the per-instrument note patterns of one loop.

use vstd::prelude::*;

use crate::consts::BEATS_PER_LOOP;

verus! {

/// One playable percussion instrument.
#[derive(Clone, Copy, Debug, PartialEq, Eq, Hash, Structural)]
pub enum Instrument {
    ClosedHihat,
    Snare,
    Kick,
    OpenHihat,
    Ride,
    Crash,
    Tom1,
    Tom2,
    Tom3,
    PedalHiHat,
}

/// The instruments in their fixed display and scheduling order.
pub open spec fn all_instruments_spec() -> Seq<Instrument> {
    seq![
        Instrument::ClosedHihat,
        Instrument::Snare,
        Instrument::Kick,
        Instrument::OpenHihat,
        Instrument::Ride,
        Instrument::Crash,
        Instrument::Tom1,
        Instrument::Tom2,
        Instrument::Tom3,
        Instrument::PedalHiHat,
    ]
}

/// The instruments in their fixed display and scheduling order.
pub fn all_instruments() -> (r: Vec<Instrument>)
    ensures
        r@ == all_instruments_spec(),
{
    let mut v: Vec<Instrument> = Vec::new();
    v.push(Instrument::ClosedHihat);
    v.push(Instrument::Snare);
    v.push(Instrument::Kick);
    v.push(Instrument::OpenHihat);
    v.push(Instrument::Ride);
    v.push(Instrument::Crash);
    v.push(Instrument::Tom1);
    v.push(Instrument::Tom2);
    v.push(Instrument::Tom3);
    v.push(Instrument::PedalHiHat);
    proof {
        assert(v@ =~= all_instruments_spec());
    }
    v
}

/// The note positions of every instrument for one repetition of the loop.
///
/// Each position is a beat offset in `[0, BEATS_PER_LOOP)` beat units; the
/// per-instrument lists are the loop data that scheduling and scoring run on.
pub struct Voices {
    pub closed_hihat: Vec<i64>,
    pub snare: Vec<i64>,
    pub kick: Vec<i64>,
    pub open_hihat: Vec<i64>,
    pub ride: Vec<i64>,
    pub crash: Vec<i64>,
    pub tom1: Vec<i64>,
    pub tom2: Vec<i64>,
    pub tom3: Vec<i64>,
    pub pedal_hihat: Vec<i64>,
}

impl Voices {
    /// The note list of one instrument, as a mathematical sequence.
    pub open spec fn beats_of(self, instrument: Instrument) -> Seq<i64> {
        match instrument {
            Instrument::ClosedHihat => self.closed_hihat@,
            Instrument::Snare => self.snare@,
            Instrument::Kick => self.kick@,
            Instrument::OpenHihat => self.open_hihat@,
            Instrument::Ride => self.ride@,
            Instrument::Crash => self.crash@,
            Instrument::Tom1 => self.tom1@,
            Instrument::Tom2 => self.tom2@,
            Instrument::Tom3 => self.tom3@,
            Instrument::PedalHiHat => self.pedal_hihat@,
        }
    }

    /// Every note position of every instrument lies within one loop.
    pub open spec fn wf(self) -> bool {
        forall|ins: Instrument, i: int|
            0 <= i < self.beats_of(ins).len() ==> 0 <= #[trigger] self.beats_of(ins)[i]
                < BEATS_PER_LOOP
    }

    /// A loop with no notes at all.
    pub fn new() -> (r: Voices)
        ensures
            r.wf(),
            forall|ins: Instrument| #[trigger] r.beats_of(ins) == Seq::<i64>::empty(),
    {
        let r = Voices {
            closed_hihat: Vec::new(),
            snare: Vec::new(),
            kick: Vec::new(),
            open_hihat: Vec::new(),
            ride: Vec::new(),
            crash: Vec::new(),
            tom1: Vec::new(),
            tom2: Vec::new(),
            tom3: Vec::new(),
            pedal_hihat: Vec::new(),
        };
        proof {
            assert forall|ins: Instrument| #[trigger] r.beats_of(ins) == Seq::<i64>::empty() by {
                assert(r.beats_of(ins) =~= Seq::<i64>::empty());
            }
        }
        r
    }

    /// The note list of one instrument.
    pub fn get_instrument_beats(&self, instrument: &Instrument) -> (r: &Vec<i64>)
        ensures
            r@ == self.beats_of(*instrument),
    {
        match instrument {
            Instrument::ClosedHihat => &self.closed_hihat,
            Instrument::Snare => &self.snare,
            Instrument::Kick => &self.kick,
            Instrument::OpenHihat => &self.open_hihat,
            Instrument::Ride => &self.ride,
            Instrument::Crash => &self.crash,
            Instrument::Tom1 => &self.tom1,
            Instrument::Tom2 => &self.tom2,
            Instrument::Tom3 => &self.tom3,
            Instrument::PedalHiHat => &self.pedal_hihat,
        }
    }
}

} // verus!

verus! {

/// A note list after toggling one beat: the first occurrence of the beat is
/// removed when present, otherwise the beat is appended.
pub open spec fn toggled_beats(s: Seq<i64>, beat: i64) -> Seq<i64> {
    match s.index_of_first(beat) {
        Some(i) => s.remove(i),
        None => s.push(beat),
    }
}

/// Removes the first occurrence of `beat`, or appends it when absent.
fn toggle_in_list(notes: &mut Vec<i64>, beat: i64)
    ensures
        final(notes)@ == toggled_beats(old(notes)@, beat),
{
    let mut i: usize = 0;
    while i < notes.len()
        invariant
            i <= notes@.len(),
            notes@ == old(notes)@,
            forall|k: int| 0 <= k < i ==> #[trigger] notes@[k] != beat,
        decreases notes@.len() - i,
    {
        if notes[i] == beat {
            proof {
                notes@.index_of_first_ensures(beat);
                if notes@.index_of_first(beat) is None {
                    assert(false);
                } else {
                    let w = notes@.index_of_first(beat).unwrap();
                    assert(notes@[w] == beat);
                    assert(w == i as int);
                }
            }
            notes.remove(i);
            return ;
        }
        i = i + 1;
    }
    proof {
        notes@.index_of_first_ensures(beat);
        if notes@.index_of_first(beat) is Some {
            let w = notes@.index_of_first(beat).unwrap();
            assert(notes@[w] == beat);
            assert(false);
        }
    }
    notes.push(beat);
}

impl Voices {
    /// Toggles one note of one instrument: removes the note when it is
    /// already in the instrument's list (first occurrence), adds it when not.
    pub fn toggle_beat(&mut self, instrument: Instrument, beat: i64)
        requires
            old(self).wf(),
            0 <= beat < BEATS_PER_LOOP,
        ensures
            final(self).beats_of(instrument) == toggled_beats(
                old(self).beats_of(instrument),
                beat,
            ),
            forall|ins: Instrument|
                ins != instrument ==> #[trigger] final(self).beats_of(ins) == old(self).beats_of(
                    ins,
                ),
            final(self).wf(),
    {
        match instrument {
            Instrument::ClosedHihat => toggle_in_list(&mut self.closed_hihat, beat),
            Instrument::Snare => toggle_in_list(&mut self.snare, beat),
            Instrument::Kick => toggle_in_list(&mut self.kick, beat),
            Instrument::OpenHihat => toggle_in_list(&mut self.open_hihat, beat),
            Instrument::Ride => toggle_in_list(&mut self.ride, beat),
            Instrument::Crash => toggle_in_list(&mut self.crash, beat),
            Instrument::Tom1 => toggle_in_list(&mut self.tom1, beat),
            Instrument::Tom2 => toggle_in_list(&mut self.tom2, beat),
            Instrument::Tom3 => toggle_in_list(&mut self.tom3, beat),
            Instrument::PedalHiHat => toggle_in_list(&mut self.pedal_hihat, beat),
        }
        proof {
            lemma_toggled_beats_in_range(old(self).beats_of(instrument), beat);
            assert forall|ins: Instrument, i: int|
                0 <= i < self.beats_of(ins).len() implies 0 <= #[trigger] self.beats_of(ins)[i]
                < BEATS_PER_LOOP by {
                if ins != instrument {
                    assert(self.beats_of(ins) == old(self).beats_of(ins));
                    assert(0 <= old(self).beats_of(ins)[i] < BEATS_PER_LOOP);
                }
            }
        }
    }
}

/// Toggling a beat that lies within the loop keeps every note within the
/// loop.
proof fn lemma_toggled_beats_in_range(s: Seq<i64>, beat: i64)
    requires
        forall|i: int| 0 <= i < s.len() ==> 0 <= #[trigger] s[i] < BEATS_PER_LOOP,
        0 <= beat < BEATS_PER_LOOP,
    ensures
        forall|i: int|
            0 <= i < toggled_beats(s, beat).len() ==> 0 <= #[trigger] toggled_beats(s, beat)[i]
                < BEATS_PER_LOOP,
{
    s.index_of_first_ensures(beat);
    if s.index_of_first(beat) is Some {
        let w = s.index_of_first(beat).unwrap();
        s.remove_ensures(w);
        assert forall|i: int|
            0 <= i < toggled_beats(s, beat).len() implies 0 <= #[trigger] toggled_beats(s, beat)[i]
            < BEATS_PER_LOOP by {
            assert(toggled_beats(s, beat) == s.remove(w));
            if i < w {
                assert(s.remove(w)[i] == s[i]);
            } else {
                assert(s.remove(w)[i] == s[i + 1]);
            }
        }
    }
}

} // verus!
