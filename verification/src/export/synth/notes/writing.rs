//! What the notes that are written have in common with the ones that the chip played.

use super::{
    arpeggio_notes, baked_notes, best_vibrato, expressive_notes, fall_bottom, fall_of, fallen_note,
    note_frames, note_sounds, plain_note, released_at, released_note, sounding_notes, tied_notes,
    without_silent, Glide, Note, PitchMeasures, Vibrato,
};
use super::super::articulation::{note_level, notes_end_with_their_gate, notes_start_with_their_gate};
use super::super::pitch::{carried_pitch, pitch_runs, runs_are_contiguous, Plateau};
use crate::analysis::frame::{EffectSpan, NoteEvent, ProgramFrame};
use vstd::prelude::*;

verus! {

proof fn ticks_fit(a: int, b: int, tpr: int)
    requires
        0 <= a <= b,
        0 <= tpr,
        b * tpr <= u32::MAX,
    ensures
        0 <= a * tpr <= b * tpr,
        super::ticks(a, tpr) == a * tpr,
        (b - a) * tpr == b * tpr - a * tpr,
        super::ticks(b - a, tpr) == b * tpr - a * tpr,
{
    assert(0 <= a * tpr <= b * tpr && (b - a) * tpr == b * tpr - a * tpr) by (nonlinear_arith)
        requires
            0 <= a <= b,
            0 <= tpr,
    ;
}

/// A note is written from the frame at which its voice is gated up to the one at which
/// that ends, in ticks, at its own pitch and as loud as it was.
pub proof fn notes_last_while_they_are_gated(
    id: u32,
    event: NoteEvent,
    tpr: u32,
    frame_count: u32,
    states: Seq<ProgramFrame>,
    on: int,
    off: int,
    end: int,
)
    requires
        event.voice.valid(),
        end == (match event.end_frame {
            Some(e) => e,
            None => frame_count,
        }),
        event.start_frame <= on < event.start_frame + 3,
        on < off,
        off + 1 < end <= states.len(),
        off * tpr <= u32::MAX,
        !states[on].digital_state_exact,
        states[on].voices@[event.voice.0 - 1].gate,
        forall|g: int|
            event.start_frame <= g < on ==> !(#[trigger] states[g]).voices@[event.voice.0 - 1].gate,
        !states[off].voices@[event.voice.0 - 1].gate,
        !states[off + 1].voices@[event.voice.0 - 1].gate,
        forall|g: int|
            on <= g < off ==> (#[trigger] states[g]).voices@[event.voice.0 - 1].gate || states[g
                + 1].voices@[event.voice.0 - 1].gate,
    ensures
        ({
            let note = plain_note(id, event, tpr, frame_count, states);
            &&& note.id == id
            &&& note.start == on * tpr
            &&& note.start + note.duration == off * tpr
            &&& note.pitch == event.midi
            &&& note.velocity == note_level(event, states)
            &&& note.vibrato is None
            &&& note.glide is None
            &&& !note.legato
        }),
{
    let v = event.voice.0 - 1;
    notes_start_with_their_gate(states, v, event.start_frame as int, end, on);
    notes_end_with_their_gate(states, v, on, end, on, off);
    ticks_fit(on, off, tpr as int);
}

proof fn runs_alternate(pitches: Seq<Option<u8>>, start: int)
    requires
        0 <= start,
        start + pitches.len() <= u32::MAX,
    ensures
        forall|k: int|
            0 < k < pitch_runs(pitches, start).len() ==> (#[trigger] pitch_runs(
                pitches,
                start,
            )[k]).pitch != pitch_runs(pitches, start)[k - 1].pitch,
    decreases pitches.len(),
{
    if pitches.len() > 0 {
        runs_alternate(pitches.drop_last(), start);
        runs_are_contiguous(pitches.drop_last(), start);
    }
}

proof fn run_of_frame(pitches: Seq<Option<u8>>, start: int, j: int) -> (k: int)
    requires
        0 <= start,
        start + pitches.len() <= u32::MAX,
        0 <= j < pitches.len(),
        carried_pitch(pitches.take(j + 1)) is Some,
    ensures
        ({
            let runs = pitch_runs(pitches, start);
            &&& 0 <= k < runs.len()
            &&& runs[k].start <= start + j < runs[k].start + runs[k].len
            &&& runs[k].pitch == carried_pitch(pitches.take(j + 1))
        }),
    decreases pitches.len(),
{
    let t = pitches.drop_last();
    let runs = pitch_runs(pitches, start);
    let before = pitch_runs(t, start);
    runs_are_contiguous(t, start);
    runs_are_contiguous(pitches, start);
    if j < t.len() {
        assert(t.take(j + 1) =~= pitches.take(j + 1));
        let k = run_of_frame(t, start, j);
        if k < before.len() - 1 {
            assert(runs[k] == before[k]);
        }
        k
    } else {
        assert(pitches.take(j + 1) =~= pitches);
        runs.len() - 1
    }
}

/// Whether a note sounds a pitch for the whole of a frame.
pub open spec fn covers(note: Note, f: int, tpr: u32, pitch: int) -> bool {
    &&& note.start <= f * tpr
    &&& (f + 1) * tpr <= note.start + note.duration
    &&& note.pitch == pitch
}

proof fn tied_note_covers(n: int, runs: Seq<Plateau>, level: super::NoteLevel, tpr: u32, k: int, f: int)
    requires
        0 <= k < runs.len(),
        runs[k].start <= f < runs[k].start + runs[k].len,
        (runs[k].start + runs[k].len) * tpr <= u32::MAX,
        runs[k].pitch is Some,
    ensures
        covers(tied_notes(n, runs, level, tpr)[k], f, tpr, runs[k].pitch->0 as int),
        tied_notes(n, runs, level, tpr)[k].start == runs[k].start * tpr,
        tied_notes(n, runs, level, tpr)[k].duration == runs[k].len * tpr,
{
    let a = runs[k].start as int;
    let b = a + runs[k].len;
    ticks_fit(a, b, tpr as int);
    ticks_fit(f, b, tpr as int);
    ticks_fit(a, f, tpr as int);
    ticks_fit(f + 1, b, tpr as int);
}

/// Whether notes belong to one gate: they are numbered on from `n`, as loud as each other,
/// and each but the first continues the one before it at another pitch.
pub open spec fn one_gate(notes: Seq<Note>, n: int, level: super::NoteLevel) -> bool {
    &&& forall|k: int| 0 <= k < notes.len() ==> (#[trigger] notes[k]).id == (n + k) as u32
    &&& forall|k: int| 0 <= k < notes.len() ==> (#[trigger] notes[k]).velocity == level
    &&& forall|k: int| 0 <= k < notes.len() ==> ((#[trigger] notes[k]).legato <==> k > 0)
    &&& forall|k: int| 0 <= k < notes.len() ==> (#[trigger] notes[k]).vibrato is None
}

/// Every frame of an arpeggio sounds the step that is due: the note's pitch with the
/// offset of the step, kept within what MIDI can tell.
pub proof fn arpeggios_sound_every_step(
    n: int,
    event: NoteEvent,
    offsets: Seq<i8>,
    tpr: u32,
    frame_count: u32,
    states: Seq<ProgramFrame>,
    end: int,
    f: int,
) -> (k: int)
    requires
        offsets.len() > 0,
        end == (match event.end_frame {
            Some(e) => e,
            None => frame_count,
        }),
        event.start_frame <= f < end,
        end * tpr <= u32::MAX,
        0 <= event.midi + offsets[(f - event.start_frame) % (offsets.len() as int)] <= 127,
    ensures
        ({
            let notes = arpeggio_notes(n, event, offsets, tpr, frame_count, states);
            &&& 0 <= k < notes.len()
            &&& covers(
                notes[k],
                f,
                tpr,
                event.midi + offsets[(f - event.start_frame) % (offsets.len() as int)],
            )
            &&& one_gate(notes, n, note_level(event, states))
            &&& forall|i: int|
                0 < i < notes.len() ==> (#[trigger] notes[i]).pitch != notes[i - 1].pitch
        }),
{
    let start = event.start_frame as int;
    let pitches = super::arpeggio_pitches(event.midi, offsets, (end - start) as nat);
    let runs = pitch_runs(pitches, start);
    let j = f - start;
    assert(pitches.take(j + 1).last() == pitches[j]);
    runs_are_contiguous(pitches, start);
    runs_alternate(pitches, start);
    let k = run_of_frame(pitches, start, j);
    assert(runs[k].start + runs[k].len <= end) by {
        if k < runs.len() - 1 {
            assert(runs[k].start + runs[k].len <= runs[runs.len() - 1].start);
        }
    }
    ticks_fit(runs[k].start + runs[k].len, end, tpr as int);
    tied_note_covers(n, runs, note_level(event, states), tpr, k, f);
    let notes = arpeggio_notes(n, event, offsets, tpr, frame_count, states);
    assert forall|i: int| 0 < i < notes.len() implies (#[trigger] notes[i]).pitch != notes[i
        - 1].pitch by {
        assert(runs[i].pitch != runs[i - 1].pitch);
        assert(runs[i - 1].pitch is Some);
    }
    k
}

/// Every frame that is baked sounds the pitch that the chip played at it, and a silent one
/// the last pitch before it.
pub proof fn baked_notes_sound_every_frame(
    n: int,
    event: NoteEvent,
    start: u32,
    pitches: Seq<Option<u8>>,
    tpr: u32,
    frame_count: u32,
    states: Seq<ProgramFrame>,
    j: int,
    heard: int,
) -> (k: int)
    requires
        0 <= heard <= j < pitches.len(),
        (start + pitches.len()) * tpr <= u32::MAX,
        start + pitches.len() <= u32::MAX,
        pitches[heard] is Some,
        forall|i: int| heard < i <= j ==> #[trigger] pitches[i] is None,
    ensures
        ({
            let notes = baked_notes(n, event, start, pitches, tpr, frame_count, states);
            &&& 0 <= k < notes.len()
            &&& covers(notes[k], start + j, tpr, pitches[heard]->0 as int)
            &&& exists|a: int, b: int|
                notes[k].start == #[trigger] (a * tpr) && notes[k].duration == #[trigger] (b * tpr)
            &&& one_gate(notes, n, note_level(event, states))
        }),
{
    let runs = pitch_runs(pitches, start as int);
    carried_from(pitches, heard, j);
    runs_are_contiguous(pitches, start as int);
    let k = run_of_frame(pitches, start as int, j);
    assert(runs[k].start + runs[k].len <= start + pitches.len()) by {
        if k < runs.len() - 1 {
            assert(runs[k].start + runs[k].len <= runs[runs.len() - 1].start);
        }
    }
    ticks_fit(runs[k].start + runs[k].len, start + pitches.len(), tpr as int);
    tied_note_covers(n, runs, note_level(event, states), tpr, k, start + j);
    let notes = baked_notes(n, event, start, pitches, tpr, frame_count, states);
    assert(notes[k].start == (runs[k].start as int) * tpr);
    assert(notes[k].duration == (runs[k].len as int) * tpr);
    k
}

proof fn carried_from(pitches: Seq<Option<u8>>, heard: int, j: int)
    requires
        0 <= heard <= j < pitches.len(),
        pitches[heard] is Some,
        forall|i: int| heard < i <= j ==> #[trigger] pitches[i] is None,
    ensures
        carried_pitch(pitches.take(j + 1)) == pitches[heard],
    decreases j - heard,
{
    let t = pitches.take(j + 1);
    assert(t.last() == pitches[j]);
    if heard < j {
        assert(pitches[j] is None);
        assert(t.drop_last() =~= pitches.take(j));
        carried_from(pitches, heard, j - 1);
    }
}

/// A fall ends on its lowest frame, below the pitch that it fell from: the pitch of that
/// frame is where it lands, the distance is counted in semitones, and no released frame
/// before it was lower.
pub proof fn falls_end_where_they_are_lowest(
    states: Seq<ProgramFrame>,
    v: int,
    onset_midi: u8,
    gated_end: int,
    frame_count: u32,
)
    requires
        0 <= v < 3,
        0 <= gated_end <= frame_count <= states.len(),
    ensures
        fall_of(states, v, onset_midi, gated_end, frame_count) matches Some(fall) ==> {
            let low = fall.end_frame - 1;
            &&& 0 <= low < states.len()
            &&& low >= gated_end - 1
            &&& states[low].voices@[v].pitch == Some(fall.dest)
            &&& fall.dest < onset_midi
            &&& fall.dest + fall.semitones == onset_midi
            &&& forall|g: int|
                gated_end <= g <= low && !(#[trigger] states[g]).voices@[v].gate
                    ==> states[g].voices@[v].freq >= states[low].voices@[v].freq
        },
{
    let off = released_at(states, v, gated_end, frame_count as int);
    released_is_first(states, v, gated_end, frame_count as int);
    let last = if off > 0 {
        off - 1
    } else {
        0
    };
    if fall_of(states, v, onset_midi, gated_end, frame_count) is Some {
        assert(last < states.len());
        assert(last == last as u32);
        let q = states[last].voices@[v].freq;
        bottom_is_lowest(states, v, off, frame_count as int, q, last, 0);
        let low = fall_bottom(states, v, off, frame_count as int, q, last, 0);
        assert forall|g: int|
            gated_end <= g <= low && !(#[trigger] states[g]).voices@[v].gate implies states[g].voices@[v].freq
            >= states[low].voices@[v].freq by {
            if g < off {
                assert(false);
            }
        }
    }
}

proof fn released_is_first(states: Seq<ProgramFrame>, v: int, f: int, end: int)
    requires
        0 <= f,
    ensures
        released_at(states, v, f, end) >= f,
        f <= end ==> released_at(states, v, f, end) <= end,
        f > end ==> released_at(states, v, f, end) == f,
        forall|g: int|
            f <= g < released_at(states, v, f, end) && g < states.len() ==> (
            #[trigger] states[g]).voices@[v].gate,
    decreases end - f,
{
    if f < end && !super::gate_is_off(states, v, f) {
        released_is_first(states, v, f + 1, end);
    }
}

proof fn bottom_is_lowest(
    states: Seq<ProgramFrame>,
    v: int,
    f: int,
    end: int,
    freq: u16,
    low: int,
    since: int,
)
    requires
        0 <= low <= f,
        low < states.len(),
        end <= u32::MAX,
        states[low].voices@[v].freq == freq,
    ensures
        ({
            let r = fall_bottom(states, v, f, end, freq, low, since);
            &&& low <= r < states.len()
            &&& r == low || f <= r < end
            &&& states[r].voices@[v].freq <= freq
            &&& forall|g: int|
                f <= g <= r ==> (#[trigger] states[g]).voices@[v].freq >= states[r].voices@[v].freq
        }),
    decreases end - f,
{
    if f >= end || !super::gate_is_off(states, v, f) || since >= super::FALL_PLATEAU_FRAMES {
    } else {
        match super::frequency_at(states, v, f as u32) {
            None => {},
            Some(q) => {
                if q < freq {
                    bottom_is_lowest(states, v, f + 1, end, q, f, 0);
                } else {
                    bottom_is_lowest(states, v, f + 1, end, freq, low, since + 1);
                }
            },
        }
    }
}

/// A note that falls begins as it did, lasts until its fall ends and lands on the fall's
/// pitch; its glide tells how far and how long it fell.
pub proof fn fallen_notes_land(
    id: u32,
    event: NoteEvent,
    tpr: u32,
    frame_count: u32,
    states: Seq<ProgramFrame>,
    on: int,
    off: int,
)
    requires
        tpr > 0,
        0 <= on < off,
        plain_note(id, event, tpr, frame_count, states).start == on * tpr,
        plain_note(id, event, tpr, frame_count, states).duration == (off - on) * tpr,
        fall_of(states, event.voice.0 - 1, event.midi, off, frame_count) is Some,
        fall_of(states, event.voice.0 - 1, event.midi, off, frame_count)->0.end_frame > on,
        fall_of(states, event.voice.0 - 1, event.midi, off, frame_count)->0.end_frame * tpr
            <= u32::MAX,
    ensures
        ({
            let fall = fall_of(states, event.voice.0 - 1, event.midi, off, frame_count)->0;
            let plain = plain_note(id, event, tpr, frame_count, states);
            fallen_note(id, event, tpr, frame_count, states) matches Some(note) && {
                &&& note.id == plain.id
                &&& note.start == plain.start
                &&& note.start + note.duration == fall.end_frame * tpr
                &&& note.pitch == fall.dest
                &&& note.velocity == plain.velocity
                &&& note.glide == Some(
                    Glide::Fall { semitones: fall.semitones, frames: (fall.end_frame - on) as u32 },
                )
            }
        }),
{
    let fall = fall_of(states, event.voice.0 - 1, event.midi, off, frame_count)->0;
    let plain = plain_note(id, event, tpr, frame_count, states);
    assert((on * tpr) / (tpr as int) == on) by (nonlinear_arith)
        requires
            tpr > 0,
    ;
    assert(((off - on) * tpr) / (tpr as int) == off - on) by (nonlinear_arith)
        requires
            tpr > 0,
    ;
    assert((plain.start / tpr) as int == on);
    assert((plain.duration / tpr) as int == off - on);
    ticks_fit(on, fall.end_frame as int, tpr as int);
}

/// The vibrato of a note is the measured or the authored one. Of two whose misses are known
/// it is the one that misses less, unless the measured one sets in late: that is kept.
pub proof fn the_better_vibrato_is_chosen(
    measured: Option<Vibrato>,
    authored: Option<Vibrato>,
    measured_miss: Option<u32>,
    authored_miss: Option<u32>,
)
    ensures
        ({
            let r = best_vibrato(measured, authored, measured_miss, authored_miss);
            &&& r is None <==> measured is None && authored is None
            &&& r is Some ==> r == measured || r == authored
            &&& authored is None ==> r == measured
            &&& measured is None ==> r == authored
            &&& measured is Some && 0 < measured->0.delay <= 0x7F80_0000 ==> r == measured
            &&& measured is Some && authored is Some && measured->0.delay == 0 ==> match (
                measured_miss,
                authored_miss,
            ) {
                (Some(a), Some(b)) => {
                    &&& b < a ==> r == authored
                    &&& b >= a ==> r == measured
                },
                _ => r == measured,
            }
        }),
{
}

/// A note is written as one note or as several of one gate, all as loud as it was. They
/// begin together with it, and only the first can slide into its pitch.
pub proof fn notes_are_written_as_one_gate(
    n: int,
    event: NoteEvent,
    states: Seq<ProgramFrame>,
    effects: Seq<EffectSpan>,
    m: PitchMeasures,
    frame_count: u32,
    tpr: u32,
    percussion: bool,
    k: int,
)
    requires
        event.voice.valid(),
        0 <= k < expressive_notes(
            n,
            event,
            states,
            effects,
            m,
            frame_count,
            tpr,
            percussion,
        ).len(),
    ensures
        ({
            let notes = expressive_notes(
                n,
                event,
                states,
                effects,
                m,
                frame_count,
                tpr,
                percussion,
            );
            let plain = plain_note(n as u32, event, tpr, frame_count, states);
            &&& notes[k].id == (n + k) as u32
            &&& notes[k].velocity == note_level(event, states)
            &&& notes[k].legato <==> k > 0
            &&& notes[k].glide is Some ==> k == 0
            &&& notes[k].vibrato is Some ==> k == 0 && notes[k].vibrato == m.vibrato
            &&& notes.len() == 1 ==> notes[0].start == plain.start
            &&& m.vibrato is Some ==> notes.len() == 1 && notes[0].duration == plain.duration
            &&& m.vibrato is Some && m.vibrato->0.delay == 0 ==> notes[0].vibrato == m.vibrato
            &&& m.vibrato is Some && 0 < m.vibrato->0.delay <= 0x7F80_0000 ==> notes[0] == plain
        }),
{
}

/// At least one note is written for every note.
pub proof fn every_note_is_written(
    n: int,
    event: NoteEvent,
    states: Seq<ProgramFrame>,
    effects: Seq<EffectSpan>,
    m: PitchMeasures,
    frame_count: u32,
    tpr: u32,
    percussion: bool,
)
    ensures
        expressive_notes(n, event, states, effects, m, frame_count, tpr, percussion).len() >= 1,
{
}

/// A note with a vibrato, no slide and no attack keeps its pitch and slides into nothing.
/// With a measured glide it is within an octave of the pitch that was gated.
pub proof fn glides_stay_near_the_gated_pitch(
    n: int,
    event: NoteEvent,
    states: Seq<ProgramFrame>,
    effects: Seq<EffectSpan>,
    m: PitchMeasures,
    frame_count: u32,
    tpr: u32,
    percussion: bool,
)
    requires
        m.vibrato is Some,
    ensures
        ({
            let notes = expressive_notes(
                n,
                event,
                states,
                effects,
                m,
                frame_count,
                tpr,
                percussion,
            );
            &&& notes[0].glide is None ==> notes[0].pitch == event.midi
            &&& -12 <= notes[0].pitch - event.midi <= 12
            &&& m.slide is None && m.chirp_on_note is None ==> notes[0].glide is None
            &&& notes[0].glide is Some ==> notes[0].glide == m.chirp_on_note || (m.slide is Some
                && notes[0].glide == Some((m.slide->0).1) && notes[0].pitch == (m.slide->0).0)
        }),
{
}

/// A release only ever lengthens a note, and changes nothing else of it. It lasts until its
/// sound has faded or another note has taken its voice, whichever comes first.
pub proof fn releases_lengthen_notes(
    note: Note,
    event: NoteEvent,
    states: Seq<ProgramFrame>,
    tpr: u32,
    owned_until: Option<u32>,
)
    ensures
        ({
            let r = released_note(note, event, states, tpr, owned_until);
            &&& r.duration >= note.duration
            &&& r == (Note { duration: r.duration, ..note })
            &&& event.sound_end is None ==> r == note
            &&& !super::stable_release(event, states) ==> r == note
            &&& r.duration > note.duration && event.sound_end->0 * tpr <= u32::MAX ==> {
                &&& event.sound_end is Some
                &&& r.start + r.duration <= event.sound_end->0 * tpr
                &&& owned_until is Some ==> r.start + r.duration <= owned_until->0 * tpr
                &&& r.start + r.duration == event.sound_end->0 * tpr || (owned_until is Some
                    && r.start + r.duration == owned_until->0 * tpr)
            }
            &&& super::automatable(event, states) && super::stable_release(event, states)
                && owned_until is None && event.sound_end->0 * tpr <= u32::MAX ==> r.start
                + r.duration >= event.sound_end->0 * tpr
        }),
{
    if event.sound_end is Some && event.sound_end->0 * tpr <= u32::MAX {
        let faded = event.sound_end->0 as int;
        ticks_fit(faded, faded, tpr as int);
        if owned_until is Some {
            let owned = owned_until->0 as int;
            if owned < faded {
                ticks_fit(owned, faded, tpr as int);
            } else {
                assert(faded * tpr <= owned * tpr) by (nonlinear_arith)
                    requires
                        faded <= owned,
                ;
            }
        }
    }
}

/// Whether a voice is gated or heard somewhere between two ticks.
pub open spec fn heard_between(
    states: Seq<ProgramFrame>,
    v: int,
    tpr: int,
    start: int,
    duration: int,
) -> bool {
    exists|f: int|
        #![trigger states[f]]
        start / tpr <= f < states.len() && (f < start / tpr + duration / tpr || f == start / tpr)
            && (states[f].voices@[v].gate || states[f].digital_voices@[v].level > 0
            || states[f].digital_voices@[v].active_cycles > 0)
}

proof fn sounding_is_heard(note: Note, states: Seq<ProgramFrame>, v: int, tpr: u32)
    requires
        tpr > 0,
    ensures
        note_sounds(note, states, v, tpr) <==> heard_between(
            states,
            v,
            tpr as int,
            note.start as int,
            note.duration as int,
        ),
{
    let span = note_frames(note, tpr);
    assert(0 <= note.start as int / tpr as int && 0 <= note.duration as int / tpr as int)
        by (nonlinear_arith)
        requires
            tpr > 0,
            note.start >= 0,
            note.duration >= 0,
    ;
    if note_sounds(note, states, v, tpr) {
        let f = choose|f: int|
            span.0 <= f < span.0 + span.1 && #[trigger] super::sounding(states, v, f);
        assert(states[f].voices@[v].gate || states[f].digital_voices@[v].level > 0
            || states[f].digital_voices@[v].active_cycles > 0);
    }
    if heard_between(states, v, tpr as int, note.start as int, note.duration as int) {
        let start = note.start as int;
        let duration = note.duration as int;
        let t = tpr as int;
        let f = choose|f: int|
            #![trigger states[f]]
            start / t <= f < states.len() && (f < start / t + duration / t || f == start / t) && (
            states[f].voices@[v].gate || states[f].digital_voices@[v].level > 0
                || states[f].digital_voices@[v].active_cycles > 0);
        assert(super::sounding(states, v, f));
    }
}

proof fn kept_note_of(n: int, tail: Seq<Note>, states: Seq<ProgramFrame>, v: int, tpr: u32, i: int) -> (k:
    int)
    requires
        0 <= i < tail.len(),
        note_sounds(tail[i], states, v, tpr),
    ensures
        ({
            let kept = sounding_notes(n, tail, states, v, tpr);
            &&& 0 <= k < kept.len()
            &&& kept[k] == (Note { id: kept[k].id, ..tail[i] })
        }),
    decreases tail.len(),
{
    if i < tail.len() - 1 {
        let k = kept_note_of(n, tail.drop_last(), states, v, tpr, i);
        k
    } else {
        sounding_notes(n, tail, states, v, tpr).len() - 1
    }
}

proof fn kept_notes_sound(n: int, tail: Seq<Note>, states: Seq<ProgramFrame>, v: int, tpr: u32, k: int) -> (i:
    int)
    requires
        0 <= k < sounding_notes(n, tail, states, v, tpr).len(),
    ensures
        ({
            let kept = sounding_notes(n, tail, states, v, tpr);
            &&& 0 <= i < tail.len()
            &&& note_sounds(tail[i], states, v, tpr)
            &&& kept[k] == (Note { id: (n + k) as u32, ..tail[i] })
        }),
    decreases tail.len(),
{
    let before = sounding_notes(n, tail.drop_last(), states, v, tpr);
    if k < before.len() {
        kept_notes_sound(n, tail.drop_last(), states, v, tpr, k)
    } else {
        tail.len() - 1
    }
}

/// Every note during which its voice is gated or heard is kept, with all but its number and
/// what it continues.
pub proof fn heard_notes_are_kept(
    n: int,
    tail: Seq<Note>,
    states: Seq<ProgramFrame>,
    v: int,
    tpr: u32,
    i: int,
) -> (k: int)
    requires
        tpr > 0,
        0 <= i < tail.len(),
        heard_between(states, v, tpr as int, tail[i].start as int, tail[i].duration as int),
    ensures
        ({
            let kept = without_silent(n, tail, states, v, tpr);
            &&& 0 <= k < kept.len()
            &&& kept[k] == (Note { id: kept[k].id, legato: kept[k].legato, ..tail[i] })
        }),
{
    sounding_is_heard(tail[i], states, v, tpr);
    kept_note_of(n, tail, states, v, tpr, i)
}

/// Only notes during which the voice is gated or heard are kept, numbered on from `n`. If
/// some were left out, the last of the others continues nothing; else all stay as they are.
pub proof fn silent_notes_are_left_out(
    n: int,
    tail: Seq<Note>,
    states: Seq<ProgramFrame>,
    v: int,
    tpr: u32,
    k: int,
) -> (i: int)
    requires
        tpr > 0,
        0 <= k < without_silent(n, tail, states, v, tpr).len(),
    ensures
        ({
            let kept = without_silent(n, tail, states, v, tpr);
            &&& 0 <= i < tail.len()
            &&& heard_between(states, v, tpr as int, tail[i].start as int, tail[i].duration as int)
            &&& kept[k] == (Note { id: (n + k) as u32, legato: kept[k].legato, ..tail[i] })
            &&& kept.len() <= tail.len()
            &&& kept.len() < tail.len() ==> !kept[kept.len() - 1].legato
            &&& k < kept.len() - 1 || kept.len() == tail.len() ==> kept[k].legato == tail[i].legato
        }),
{
    let i = kept_notes_sound(n, tail, states, v, tpr, k);
    sounding_is_heard(tail[i], states, v, tpr);
    no_more_notes(n, tail, states, v, tpr);
    i
}

proof fn no_more_notes(n: int, tail: Seq<Note>, states: Seq<ProgramFrame>, v: int, tpr: u32)
    ensures
        sounding_notes(n, tail, states, v, tpr).len() <= tail.len(),
    decreases tail.len(),
{
    if tail.len() > 0 {
        no_more_notes(n, tail.drop_last(), states, v, tpr);
    }
}

} // verus!
