//! The notes that a song plays for the notes of a chip voice.

pub mod writing;

use crate::analysis::frame::{
    first_overlap, freq_at, frequency_at, overlapping_span, Effect, EffectSpan, NoteEvent,
    ProgramFrame,
};
use super::articulation::{
    articulation_is_automatable, attacks_countable, authored_end, authored_note_end_frame,
    automatable, export_velocity, gate_end, gate_on_end, gate_on_start, gate_start, note_level,
    release_waveform_is_stable, sounding, span_has_signal, stable_release, NoteLevel,
};
use super::pitch::{
    drop_body, find_runs, frame_pitch, pitch_at, pitch_plateaus, pitch_runs, plateau_drop_dest,
    plateaus, plateaus_tile_the_note, runs_are_contiguous, Plateau, MAX_ONSET_GLIDE_SEMITONES,
};
use vstd::prelude::*;

verus! {

/// How a note slides into its pitch. Measured numbers are single-precision bit
/// patterns: semitones and milliseconds.
#[derive(Debug, Clone, Copy, PartialEq, Eq, Structural)]
pub enum Glide {
    Measured { from: u32, time: u32 },
    /// A fall by whole semitones over a number of frames.
    Fall { semitones: u8, frames: u32 },
}

/// The contour of a vibrato.
#[derive(Debug, Clone, Copy, PartialEq, Eq, Structural)]
pub enum VibratoShape {
    Sine,
    Triangle,
    Square,
    Saw,
}

/// A vibrato; its numbers are single-precision bit patterns: semitones, hertz
/// and milliseconds.
#[derive(Debug, Clone, Copy, PartialEq, Eq, Structural)]
pub struct Vibrato {
    pub depth: u32,
    pub rate: u32,
    pub delay: u32,
    pub shape: VibratoShape,
}

/// A note of a song, in ticks.
#[derive(Debug, Clone, Copy, PartialEq, Eq, Structural)]
pub struct Note {
    pub id: u32,
    pub start: u32,
    pub duration: u32,
    pub pitch: u32,
    pub velocity: NoteLevel,
    pub vibrato: Option<Vibrato>,
    pub glide: Option<Glide>,
    /// Whether the note continues the one before it.
    pub legato: bool,
}

/// What machine limits ask of a note: it lies on a voice, does not start at the
/// very end of time, and its envelope events can be counted.
pub open spec fn event_fits(event: NoteEvent, states: Seq<ProgramFrame>) -> bool {
    &&& event.voice.valid()
    &&& event.start_frame + 5 <= u32::MAX
    &&& attacks_countable(event, states)
}

/// A number of frames in ticks, as far as ticks can be counted.
pub open spec fn ticks(frames: int, tpr: int) -> u32 {
    if frames * tpr > u32::MAX {
        u32::MAX
    } else {
        (frames * tpr) as u32
    }
}

/// A number of frames in ticks, as far as ticks can be counted.
pub fn to_ticks(frames: u32, tpr: u32) -> (r: u32)
    ensures
        r == ticks(frames as int, tpr as int),
{
    assert(frames * tpr <= u64::MAX) by (nonlinear_arith)
        requires
            0 <= frames <= u32::MAX,
            0 <= tpr <= u32::MAX,
    ;
    let t: u64 = frames as u64 * tpr as u64;
    if t > u32::MAX as u64 {
        u32::MAX
    } else {
        t as u32
    }
}

/// At least one.
pub open spec fn at_least_one(n: int) -> int {
    if n < 1 {
        1
    } else {
        n
    }
}

/// The frames over which a note is gated: the first, and the one behind the
/// last.
pub open spec fn gated_span(event: NoteEvent, states: Seq<ProgramFrame>, frame_count: u32) -> (
    int,
    int,
) {
    let end = authored_end(event, frame_count) as int;
    let v = event.voice.0 - 1;
    let start = gate_start(states, v, event.start_frame as int, end);
    (start, gate_end(states, v, start, end))
}

/// A note as the chip gates it, at its own pitch.
pub open spec fn plain_note(
    id: u32,
    event: NoteEvent,
    tpr: u32,
    frame_count: u32,
    states: Seq<ProgramFrame>,
) -> Note {
    let span = gated_span(event, states, frame_count);
    Note {
        id,
        start: ticks(span.0, tpr as int),
        duration: ticks(at_least_one(span.1 - span.0), tpr as int),
        pitch: event.midi as u32,
        velocity: note_level(event, states),
        vibrato: None,
        glide: None,
        legato: false,
    }
}

/// The frames over which a note is gated.
pub fn gated_frames(event: &NoteEvent, states: &[ProgramFrame], frame_count: u32) -> (r: (u32, u32))
    requires
        event.voice.valid(),
        event.start_frame + 5 <= u32::MAX,
    ensures
        (r.0 as int, r.1 as int) == gated_span(*event, states@, frame_count),
        r.0 <= r.1,
        event.start_frame <= r.0,
        r.1 == r.0 ==> r.0 == event.start_frame,
        r.1 <= authored_end(*event, frame_count),
{
    let end: u32 = authored_note_end_frame(event, frame_count);
    let v: usize = event.voice.to_index();
    let start: u32 = gate_on_start(states, v, event.start_frame, end);
    let gate_off: u32 = gate_on_end(states, v, start, end);
    (start, gate_off)
}

/// Makes a note of an event, as the chip gates it.
pub fn build_note(
    id: u32,
    event: &NoteEvent,
    tpr: u32,
    frame_count: u32,
    states: &[ProgramFrame],
) -> (r: Note)
    requires
        event_fits(*event, states@),
    ensures
        r == plain_note(id, *event, tpr, frame_count, states@),
{
    let (start, end) = gated_frames(event, states, frame_count);
    let span: u32 = end - start;
    let frames: u32 = if span < 1 {
        1
    } else {
        span
    };
    Note {
        id,
        start: to_ticks(start, tpr),
        duration: to_ticks(frames, tpr),
        pitch: event.midi as u32,
        velocity: export_velocity(event, states),
        vibrato: None,
        glide: None,
        legato: false,
    }
}

/// Runs of pitch as notes of one gate: each but the first continues the one
/// before it. `n` notes stand before them.
pub open spec fn tied_notes(n: int, runs: Seq<Plateau>, level: NoteLevel, tpr: u32) -> Seq<Note> {
    Seq::new(
        runs.len(),
        |k: int|
            Note {
                id: (n + k) as u32,
                start: ticks(runs[k].start as int, tpr as int),
                duration: ticks(at_least_one(runs[k].len as int), tpr as int),
                pitch: runs[k].pitch->0 as u32,
                velocity: level,
                vibrato: None,
                glide: None,
                legato: k > 0,
            },
    )
}

fn push_tied(notes: &mut Vec<Note>, runs: &[Plateau], level: NoteLevel, tpr: u32)
    requires
        forall|k: int| 0 <= k < runs@.len() ==> (#[trigger] runs@[k]).pitch is Some,
    ensures
        final(notes)@ == old(notes)@ + tied_notes(
            old(notes)@.len() as int,
            runs@,
            level,
            tpr,
        ),
{
    let ghost before = notes@;
    let ghost all = tied_notes(before.len() as int, runs@, level, tpr);
    let mut k: usize = 0;
    while k < runs.len()
        invariant
            k <= runs@.len(),
            forall|k: int| 0 <= k < runs@.len() ==> (#[trigger] runs@[k]).pitch is Some,
            all == tied_notes(before.len() as int, runs@, level, tpr),
            notes@ == before + all.take(k as int),
        decreases runs@.len() - k,
    {
        let len: u32 = if runs[k].len < 1 {
            1
        } else {
            runs[k].len
        };
        assert(runs@[k as int].pitch is Some);
        let pitch: u8 = runs[k].pitch.unwrap();
        let note: Note = Note {
            id: notes.len() as u32,
            start: to_ticks(runs[k].start, tpr),
            duration: to_ticks(len, tpr),
            pitch: pitch as u32,
            velocity: level,
            vibrato: None,
            glide: None,
            legato: k > 0,
        };
        assert(note == all[k as int]);
        notes.push(note);
        assert(all.take(k + 1) =~= all.take(k as int).push(all[k as int]));
        assert(notes@ =~= before + all.take(k + 1));
        k += 1;
    }
    assert(all.take(all.len() as int) =~= all);
}

/// The pitch of an arpeggio step, within the MIDI range.
pub open spec fn step_pitch(midi: u8, offset: i8) -> u8 {
    let p = midi + offset;
    if p < 0 {
        0
    } else if p > 127 {
        127
    } else {
        p as u8
    }
}

/// The pitches of an arpeggio: a step per frame, over and over.
pub open spec fn arpeggio_pitches(midi: u8, offsets: Seq<i8>, frames: nat) -> Seq<Option<u8>> {
    Seq::new(frames, |j: int| Some(step_pitch(midi, offsets[j % offsets.len() as int])))
}

/// The notes of an arpeggio, one for each run of equal pitch. A note without
/// length stays a single note.
pub open spec fn arpeggio_notes(
    n: int,
    event: NoteEvent,
    offsets: Seq<i8>,
    tpr: u32,
    frame_count: u32,
    states: Seq<ProgramFrame>,
) -> Seq<Note> {
    let end = authored_end(event, frame_count);
    if end <= event.start_frame {
        seq![plain_note(n as u32, event, tpr, frame_count, states)]
    } else {
        tied_notes(
            n,
            pitch_runs(
                arpeggio_pitches(event.midi, offsets, (end - event.start_frame) as nat),
                event.start_frame as int,
            ),
            note_level(event, states),
            tpr,
        )
    }
}

/// Writes out an arpeggio as notes.
pub fn expand_arpeggio(
    notes: &mut Vec<Note>,
    event: &NoteEvent,
    offsets: &[i8],
    tpr: u32,
    frame_count: u32,
    states: &[ProgramFrame],
)
    requires
        event_fits(*event, states@),
        offsets@.len() > 0,
    ensures
        final(notes)@ == old(notes)@ + arpeggio_notes(
            old(notes)@.len() as int,
            *event,
            offsets@,
            tpr,
            frame_count,
            states@,
        ),
{
    let end: u32 = authored_note_end_frame(event, frame_count);
    if end <= event.start_frame {
        let note: Note = build_note(notes.len() as u32, event, tpr, frame_count, states);
        let ghost before = notes@;
        notes.push(note);
        assert(notes@ =~= before + seq![note]);
        return;
    }
    let count: u32 = end - event.start_frame;
    let mut pitches: Vec<Option<u8>> = Vec::new();
    let ghost wanted = arpeggio_pitches(event.midi, offsets@, count as nat);
    let mut step: usize = 0;
    let mut j: u32 = 0;
    assert(0int % offsets@.len() as int == 0) by (nonlinear_arith)
        requires
            offsets@.len() > 0,
    ;
    while j < count
        invariant
            j <= count,
            offsets@.len() > 0,
            wanted == arpeggio_pitches(event.midi, offsets@, count as nat),
            step < offsets@.len(),
            step == j as int % offsets@.len() as int,
            pitches@ == wanted.take(j as int),
        decreases count - j,
    {
        let p: i16 = event.midi as i16 + offsets[step] as i16;
        let pitch: u8 = if p < 0 {
            0
        } else if p > 127 {
            127
        } else {
            p as u8
        };
        assert(Some(pitch) == wanted[j as int]);
        pitches.push(Some(pitch));
        assert(wanted.take(j + 1) =~= wanted.take(j as int).push(wanted[j as int]));
        proof {
            next_step(j as int, offsets@.len() as int);
        }
        step = if step + 1 == offsets.len() {
            0
        } else {
            step + 1
        };
        j += 1;
    }
    assert(wanted.take(count as int) =~= wanted);
    let runs: Vec<Plateau> = find_runs(pitches.as_slice(), event.start_frame);
    proof {
        runs_are_contiguous(pitches@, event.start_frame as int);
    }
    let level: NoteLevel = export_velocity(event, states);
    push_tied(notes, runs.as_slice(), level, tpr);
}

proof fn next_step(j: int, n: int)
    requires
        j >= 0,
        n > 0,
    ensures
        0 <= j % n < n,
        (j + 1) % n == (if j % n + 1 == n {
            0
        } else {
            j % n + 1
        }),
{
    vstd::arithmetic::div_mod::lemma_fundamental_div_mod(j, n);
    let q = j / n;
    let r = j % n;
    assert(0 <= r < n) by (nonlinear_arith)
        requires
            r == j % n,
            n > 0,
    ;
    if r + 1 == n {
        assert(j + 1 == (q + 1) * n) by (nonlinear_arith)
            requires
                j == n * q + r,
                r + 1 == n,
        ;
        vstd::arithmetic::div_mod::lemma_fundamental_div_mod_converse(j + 1, n, q + 1, 0);
    } else {
        assert(j + 1 == q * n + (r + 1)) by (nonlinear_arith)
            requires
                j == n * q + r,
        ;
        vstd::arithmetic::div_mod::lemma_fundamental_div_mod_converse(j + 1, n, q, r + 1);
    }
}

/// The notes that play the pitches that the chip itself played, from `start` on;
/// without any pitch, a single note.
pub open spec fn baked_notes(
    n: int,
    event: NoteEvent,
    start: u32,
    pitches: Seq<Option<u8>>,
    tpr: u32,
    frame_count: u32,
    states: Seq<ProgramFrame>,
) -> Seq<Note> {
    let runs = pitch_runs(pitches, start as int);
    if runs.len() == 0 {
        seq![plain_note(n as u32, event, tpr, frame_count, states)]
    } else {
        tied_notes(n, runs, note_level(event, states), tpr)
    }
}

/// The frames that are baked: those over which the note is gated, with the tail
/// over which its release moves on, and one at least.
pub open spec fn baked_span(
    event: NoteEvent,
    states: Seq<ProgramFrame>,
    frame_count: u32,
    tail_end: u32,
) -> (int, int) {
    let span = gated_span(event, states, frame_count);
    let end = if tail_end > span.1 {
        tail_end as int
    } else {
        span.1
    };
    (
        span.0,
        if end < span.0 + 1 {
            span.0 + 1
        } else {
            end
        },
    )
}

/// The frames that are baked.
pub fn baked_frames(
    event: &NoteEvent,
    states: &[ProgramFrame],
    frame_count: u32,
    tail_end: u32,
) -> (r: (u32, u32))
    requires
        event.voice.valid(),
        event.start_frame + 5 <= u32::MAX,
    ensures
        (r.0 as int, r.1 as int) == baked_span(*event, states@, frame_count, tail_end),
        r.0 < r.1,
{
    let (start, gate_off) = gated_frames(event, states, frame_count);
    let end: u32 = if tail_end > gate_off {
        tail_end
    } else {
        gate_off
    };
    if end == start {
        (start, start + 1)
    } else {
        (start, end)
    }
}

/// Writes out the pitches that the chip played during a note. `pitches` holds
/// them for the frames from the note's gate on.
pub fn bake_pitch_runs(
    notes: &mut Vec<Note>,
    event: &NoteEvent,
    pitches: &[Option<u8>],
    tpr: u32,
    frame_count: u32,
    states: &[ProgramFrame],
)
    requires
        event_fits(*event, states@),
        gated_span(*event, states@, frame_count).0 + pitches@.len() <= u32::MAX,
    ensures
        final(notes)@ == old(notes)@ + baked_notes(
            old(notes)@.len() as int,
            *event,
            gated_span(*event, states@, frame_count).0 as u32,
            pitches@,
            tpr,
            frame_count,
            states@,
        ),
{
    let (start, _) = gated_frames(event, states, frame_count);
    let runs: Vec<Plateau> = find_runs(pitches, start);
    proof {
        runs_are_contiguous(pitches@, start as int);
    }
    if runs.len() == 0 {
        let note: Note = build_note(notes.len() as u32, event, tpr, frame_count, states);
        let ghost before = notes@;
        notes.push(note);
        assert(notes@ =~= before + seq![note]);
        return;
    }
    let level: NoteLevel = export_velocity(event, states);
    push_tied(notes, runs.as_slice(), level, tpr);
}

/// How long a fall may stay at its lowest pitch before it has ended.
pub const FALL_PLATEAU_FRAMES: u32 = 8;

/// Whether a voice is known to be released at a frame.
pub open spec fn gate_is_off(states: Seq<ProgramFrame>, v: int, f: int) -> bool {
    0 <= f < states.len() && !states[f].voices@[v].gate
}

/// The first frame from `f` on at which a voice is released.
pub open spec fn released_at(states: Seq<ProgramFrame>, v: int, f: int, end: int) -> int
    decreases end - f,
{
    if f >= end || gate_is_off(states, v, f) {
        f
    } else {
        released_at(states, v, f + 1, end)
    }
}

/// The frame at which a fall is lowest, found so far at `low` with the frequency
/// `freq`; `since` frames brought nothing lower.
pub open spec fn fall_bottom(
    states: Seq<ProgramFrame>,
    v: int,
    f: int,
    end: int,
    freq: u16,
    low: int,
    since: int,
) -> int
    decreases end - f,
{
    if f >= end || !gate_is_off(states, v, f) || since >= FALL_PLATEAU_FRAMES {
        low
    } else {
        match frequency_at(states, v, f as u32) {
            None => low,
            Some(q) => if q < freq {
                fall_bottom(states, v, f + 1, end, q, f, 0)
            } else {
                fall_bottom(states, v, f + 1, end, freq, low, since + 1)
            },
        }
    }
}

/// A fall: where it ends, on which pitch, and how far it went.
#[derive(Debug, Clone, Copy, PartialEq, Eq, Structural)]
pub struct Fall {
    pub end_frame: u32,
    pub dest: u8,
    pub semitones: u8,
}

/// The fall of a voice behind its gate: the lowest frame of its release, if its
/// pitch lies a semitone at least below the onset.
pub open spec fn fall_of(
    states: Seq<ProgramFrame>,
    v: int,
    onset_midi: u8,
    gated_end: int,
    frame_count: u32,
) -> Option<Fall> {
    let off = released_at(states, v, gated_end, frame_count as int);
    let last = if off > 0 {
        off - 1
    } else {
        0
    };
    match frequency_at(states, v, last as u32) {
        None => None,
        Some(q) => {
            let low = fall_bottom(states, v, off, frame_count as int, q, last, 0);
            match pitch_at(states, v, low) {
                Some(dest) => if dest < onset_midi {
                    Some(
                        Fall {
                            end_frame: (low + 1) as u32,
                            dest,
                            semitones: (onset_midi - dest) as u8,
                        },
                    )
                } else {
                    None
                },
                None => None,
            }
        },
    }
}

/// Follows a fall behind its gate.
pub fn fall_extent(
    states: &[ProgramFrame],
    voice_index: usize,
    onset_midi: u8,
    gated_end: u32,
    frame_count: u32,
) -> (r: Option<Fall>)
    requires
        voice_index < 3,
    ensures
        r == fall_of(states@, voice_index as int, onset_midi, gated_end as int, frame_count),
        r matches Some(fall) ==> fall.end_frame >= gated_end && fall.end_frame > 0,
{
    let ghost s = states@;
    let ghost v = voice_index as int;
    let mut off: u32 = gated_end;
    while off < frame_count && !((off as usize) < states.len()
        && !states[off as usize].voices[voice_index].gate)
        invariant
            voice_index < 3,
            s == states@,
            v == voice_index,
            gated_end <= off,
            released_at(s, v, gated_end as int, frame_count as int) == released_at(
                s,
                v,
                off as int,
                frame_count as int,
            ),
        decreases frame_count - off,
    {
        off += 1;
    }
    let last: u32 = if off > 0 {
        off - 1
    } else {
        0
    };
    let mut freq: u16 = match freq_at(states, voice_index, last) {
        Some(q) => q,
        None => {
            return None;
        },
    };
    let ghost first = freq;
    let mut low: u32 = last;
    let mut since: u32 = 0;
    let mut f: u32 = off;
    let mut done: bool = false;
    while !done && f < frame_count && (f as usize) < states.len()
        && !states[f as usize].voices[voice_index].gate && since < FALL_PLATEAU_FRAMES
        invariant
            voice_index < 3,
            s == states@,
            v == voice_index,
            last <= off <= f,
            off <= frame_count ==> f <= frame_count,
            low < f || (low == last && f == off),
            low >= last,
            since <= FALL_PLATEAU_FRAMES,
            !done ==> fall_bottom(s, v, off as int, frame_count as int, first, last as int, 0)
                == fall_bottom(
                s,
                v,
                f as int,
                frame_count as int,
                freq,
                low as int,
                since as int,
            ),
            done ==> fall_bottom(s, v, off as int, frame_count as int, first, last as int, 0) == low,
        decreases frame_count - f, (if done { 0int } else { 1int }),
    {
        match freq_at(states, voice_index, f) {
            None => {
                done = true;
            },
            Some(q) => {
                if q < freq {
                    freq = q;
                    low = f;
                    since = 0;
                } else {
                    since += 1;
                }
                f += 1;
            },
        }
    }
    assert(fall_bottom(s, v, off as int, frame_count as int, first, last as int, 0) == low);
    match frame_pitch(states, voice_index, low) {
        Some(dest) => if dest < onset_midi {
            assert(low < u32::MAX);
            Some(Fall { end_frame: low + 1, dest, semitones: onset_midi - dest })
        } else {
            None
        },
        None => None,
    }
}

/// A note that falls: it ends where the fall ends, on the pitch that it falls
/// to.
pub open spec fn fallen_note(
    id: u32,
    event: NoteEvent,
    tpr: u32,
    frame_count: u32,
    states: Seq<ProgramFrame>,
) -> Option<Note> {
    let note = plain_note(id, event, tpr, frame_count, states);
    let start = (note.start / tpr) as int;
    let gated_end = start + (note.duration / tpr) as int;
    match fall_of(states, event.voice.0 - 1, event.midi, gated_end, frame_count) {
        Some(fall) => Some(
            Note {
                duration: ticks(at_least_one(fall.end_frame - start), tpr as int),
                pitch: fall.dest as u32,
                glide: Some(
                    Glide::Fall {
                        semitones: fall.semitones,
                        frames: (fall.end_frame - start) as u32,
                    },
                ),
                ..note
            },
        ),
        None => None,
    }
}

proof fn ticks_back(frames: int, tpr: int)
    requires
        0 <= frames <= u32::MAX,
        0 < tpr <= u32::MAX,
    ensures
        0 <= ticks(frames, tpr) as int / tpr <= frames,
{
    let t = ticks(frames, tpr) as int;
    assert(0 <= frames * tpr) by (nonlinear_arith)
        requires
            0 <= frames,
            0 < tpr,
    ;
    assert(0 <= t <= frames * tpr);
    assert(0 <= t / tpr <= frames) by (nonlinear_arith)
        requires
            0 <= t <= frames * tpr,
            0 < tpr,
    ;
}

/// Makes a note of an event that falls.
pub fn fall_note(
    id: u32,
    event: &NoteEvent,
    states: &[ProgramFrame],
    frame_count: u32,
    tpr: u32,
) -> (r: Option<Note>)
    requires
        event_fits(*event, states@),
        tpr > 0,
    ensures
        r == fallen_note(id, *event, tpr, frame_count, states@),
{
    let mut note: Note = build_note(id, event, tpr, frame_count, states);
    let (first, off) = gated_frames(event, states, frame_count);
    proof {
        ticks_back(first as int, tpr as int);
        ticks_back(at_least_one(off - first), tpr as int);
    }
    let start: u32 = note.start / tpr;
    let gated_end: u32 = start + note.duration / tpr;
    match fall_extent(states, event.voice.to_index(), event.midi, gated_end, frame_count) {
        Some(fall) => {
            let frames: u32 = fall.end_frame - start;
            let len: u32 = if frames < 1 {
                1
            } else {
                frames
            };
            note.duration = to_ticks(len, tpr);
            note.pitch = fall.dest as u32;
            note.glide = Some(Glide::Fall { semitones: fall.semitones, frames });
            Some(note)
        },
        None => None,
    }
}

/// Whether a single-precision bit pattern is that of a number above zero.
pub open spec fn is_positive(bits: u32) -> bool {
    0 < bits <= 0x7F80_0000
}

/// Whether a single-precision bit pattern is that of a number not below zero.
/// Such patterns order as their numbers do.
pub open spec fn is_not_negative(bits: u32) -> bool {
    bits <= 0x7F80_0000
}

/// Whether a vibrato sets in later than its note.
pub open spec fn is_delayed(v: Vibrato) -> bool {
    is_positive(v.delay)
}

/// Tells whether a vibrato sets in later than its note.
pub fn vibrato_is_delayed(v: &Vibrato) -> (r: bool)
    ensures
        r == is_delayed(*v),
{
    0 < v.delay && v.delay <= 0x7F80_0000
}

/// The vibrato of a note: a measured one that is delayed; of a measured and an
/// authored one, the authored one only if it misses the trace by less; else
/// whichever there is.
pub open spec fn best_vibrato(
    measured: Option<Vibrato>,
    authored: Option<Vibrato>,
    measured_miss: Option<u32>,
    authored_miss: Option<u32>,
) -> Option<Vibrato> {
    match (measured, authored) {
        (Some(m), Some(a)) => if !is_delayed(m) && measured_miss is Some && authored_miss is Some
            && authored_miss->0 < measured_miss->0 {
            Some(a)
        } else {
            Some(m)
        },
        (Some(m), None) => Some(m),
        (None, a) => a,
    }
}

/// Chooses the vibrato of a note. The misses are mean residuals in cents.
pub fn choose_vibrato(
    measured: Option<Vibrato>,
    authored: Option<Vibrato>,
    measured_miss: Option<u32>,
    authored_miss: Option<u32>,
) -> (r: Option<Vibrato>)
    requires
        measured_miss matches Some(b) ==> is_not_negative(b),
        authored_miss matches Some(b) ==> is_not_negative(b),
    ensures
        r == best_vibrato(measured, authored, measured_miss, authored_miss),
{
    match (measured, authored) {
        (Some(m), Some(a)) => {
            if vibrato_is_delayed(&m) {
                return Some(m);
            }
            match (measured_miss, authored_miss) {
                (Some(rm), Some(ra)) => if ra < rm {
                    Some(a)
                } else {
                    Some(m)
                },
                _ => Some(m),
            }
        },
        (Some(m), None) => Some(m),
        (None, a) => a,
    }
}

/// What was measured of the pitch of a note.
#[derive(Debug, Clone, Copy)]
pub struct PitchMeasures {
    /// The pitch and the glide of the first slide that overlaps the note.
    pub slide: Option<(u8, Glide)>,
    pub vibrato: Option<Vibrato>,
    /// The attack that settles on the pitch of the note.
    pub chirp_on_note: Option<Glide>,
    /// The attack that settles on the first sustained pitch.
    pub chirp_on_plateau: Option<Glide>,
}

/// Whether a pitch lies within an octave of the gated one.
pub open spec fn near_gate(dest: u8, midi: u8) -> bool {
    -MAX_ONSET_GLIDE_SEMITONES <= dest - midi <= MAX_ONSET_GLIDE_SEMITONES
}

/// The slide that a note opens with.
pub open spec fn onset_slide(
    event: NoteEvent,
    effects: Seq<EffectSpan>,
    end: u32,
    slide: Option<(u8, Glide)>,
) -> Option<(u8, Glide)> {
    match first_overlap(effects, Effect::Portamento, event.voice, event.start_frame, end) {
        Some(s) => if s.start_frame == event.start_frame {
            slide
        } else {
            None
        },
        None => None,
    }
}

/// Whether a slide covers half of a note at least.
pub open spec fn slides_through(event: NoteEvent, effects: Seq<EffectSpan>, end: u32) -> bool {
    match first_overlap(effects, Effect::Portamento, event.voice, event.start_frame, end) {
        Some(s) => {
            let len = if s.end_frame > s.start_frame {
                s.end_frame - s.start_frame
            } else {
                0
            };
            let twice = if len * 2 > u32::MAX {
                u32::MAX as int
            } else {
                len * 2
            };
            twice >= end - event.start_frame
        },
        None => false,
    }
}

/// A glide that stays within an octave of the gated pitch.
pub open spec fn near_glide(glide: Option<(u8, Glide)>, midi: u8) -> Option<(u8, Glide)> {
    match glide {
        Some(g) => if near_gate(g.0, midi) {
            Some(g)
        } else {
            None
        },
        None => None,
    }
}

/// A glide onto a pitch.
pub open spec fn glide_onto(pitch: u8, glide: Option<Glide>) -> Option<(u8, Glide)> {
    match glide {
        Some(g) => Some((pitch, g)),
        None => None,
    }
}

/// A single note with a glide and a vibrato.
pub open spec fn single_note(
    plain: Note,
    glide: Option<(u8, Glide)>,
    vibrato: Option<Vibrato>,
) -> Note {
    Note {
        pitch: match glide {
            Some(g) => g.0 as u32,
            None => plain.pitch,
        },
        glide: match glide {
            Some(g) => Some(g.1),
            None => None,
        },
        vibrato,
        ..plain
    }
}

/// The glide into the first sustained pitch: a slide that settles on it, or else
/// an attack, if no slide opened the note.
pub open spec fn settled_glide(
    onset: Option<(u8, Glide)>,
    first: Option<u8>,
    chirp: Option<Glide>,
) -> Option<(u8, Glide)> {
    match onset {
        Some(g) => if first == Some(g.0) {
            Some(g)
        } else {
            None
        },
        None => match first {
            Some(p) => glide_onto(p, chirp),
            None => None,
        },
    }
}

/// The glide into the body of a drum: a slide that settles on it, or else an
/// attack.
pub open spec fn body_glide(onset: Option<(u8, Glide)>, dest: u8, chirp: Option<Glide>) -> Option<
    Glide,
> {
    match onset {
        Some(g) => if g.0 == dest {
            Some(g.1)
        } else {
            chirp
        },
        None => chirp,
    }
}

/// The notes that a note of a voice is written as, after `n` others.
pub open spec fn expressive_notes(
    n: int,
    event: NoteEvent,
    states: Seq<ProgramFrame>,
    effects: Seq<EffectSpan>,
    m: PitchMeasures,
    frame_count: u32,
    tpr: u32,
    percussion: bool,
) -> Seq<Note> {
    let end = authored_end(event, frame_count);
    let plain = plain_note(n as u32, event, tpr, frame_count, states);
    let onset = onset_slide(event, effects, end, m.slide);
    let steps = plateaus(states, event.voice.0 - 1, event.start_frame as int, end as int);
    let first = if steps.len() > 0 {
        steps[0].pitch
    } else {
        None
    };
    let body = drop_body(first, event.midi);
    let glide = near_glide(settled_glide(onset, first, m.chirp_on_plateau), event.midi);
    let fall = fallen_note(n as u32, event, tpr, frame_count, states);
    if m.vibrato is Some && is_delayed(m.vibrato->0) {
        seq![plain]
    } else if m.vibrato is Some {
        let opening = match onset {
            Some(g) => Some(g),
            None => glide_onto(event.midi, m.chirp_on_note),
        };
        seq![single_note(plain, near_glide(opening, event.midi), m.vibrato)]
    } else if body is Some {
        seq![
            Note {
                pitch: body->0 as u32,
                glide: body_glide(onset, body->0, m.chirp_on_plateau),
                ..plain
            },
        ]
    } else if slides_through(event, effects, end) {
        seq![
            match fall {
                Some(note) => note,
                None => plain,
            },
        ]
    } else if percussion && fall is Some {
        seq![fall->0]
    } else if steps.len() <= 1 {
        seq![single_note(plain, glide, None)]
    } else {
        let tied = tied_notes(n, steps, note_level(event, states), tpr);
        tied.update(0, single_note(tied[0], glide, None))
    }
}

/// Writes out a note with the effects on its pitch.
pub fn push_expressive_notes(
    notes: &mut Vec<Note>,
    event: &NoteEvent,
    states: &[ProgramFrame],
    effects: &[EffectSpan],
    m: &PitchMeasures,
    frame_count: u32,
    tpr: u32,
    percussion: bool,
)
    requires
        event_fits(*event, states@),
        tpr > 0,
    ensures
        final(notes)@ == old(notes)@ + expressive_notes(
            old(notes)@.len() as int,
            *event,
            states@,
            effects@,
            *m,
            frame_count,
            tpr,
            percussion,
        ),
{
    let ghost before = notes@;
    let start: u32 = event.start_frame;
    let end: u32 = authored_note_end_frame(event, frame_count);
    let id: u32 = notes.len() as u32;
    let span: Option<EffectSpan> = overlapping_span(
        effects,
        Effect::Portamento,
        event.voice,
        start,
        end,
    );
    let onset: Option<(u8, Glide)> = match span {
        Some(s) => if s.start_frame == start {
            m.slide
        } else {
            None
        },
        None => None,
    };
    let plain: Note = build_note(id, event, tpr, frame_count, states);
    if let Some(vibrato) = m.vibrato {
        if vibrato_is_delayed(&vibrato) {
            notes.push(plain);
            assert(notes@ =~= before + seq![plain]);
            return;
        }
        let opening: Option<(u8, Glide)> = match onset {
            Some(g) => Some(g),
            None => onto(event.midi, m.chirp_on_note),
        };
        let note: Note = with_glide(&plain, keep_near(opening, event.midi), Some(vibrato));
        notes.push(note);
        assert(notes@ =~= before + seq![note]);
        return;
    }
    let steps: Vec<Plateau> = pitch_plateaus(states, event.voice.to_index(), start, end);
    let first: Option<u8> = if steps.len() > 0 {
        steps[0].pitch
    } else {
        None
    };
    if let Some(dest) = plateau_drop_dest(first, event.midi) {
        let glide: Option<Glide> = match onset {
            Some(g) => if g.0 == dest {
                Some(g.1)
            } else {
                m.chirp_on_plateau
            },
            None => m.chirp_on_plateau,
        };
        let mut note: Note = plain;
        note.pitch = dest as u32;
        note.glide = glide;
        notes.push(note);
        assert(notes@ =~= before + seq![note]);
        return;
    }
    let settled: Option<(u8, Glide)> = match onset {
        Some(g) => match first {
            Some(p) => if p == g.0 {
                Some(g)
            } else {
                None
            },
            None => None,
        },
        None => match first {
            Some(p) => onto(p, m.chirp_on_plateau),
            None => None,
        },
    };
    let glide: Option<(u8, Glide)> = keep_near(settled, event.midi);
    let slide_through: bool = match span {
        Some(s) => {
            let len: u32 = if s.end_frame > s.start_frame {
                s.end_frame - s.start_frame
            } else {
                0
            };
            len as u64 * 2 >= u32::MAX as u64 || len * 2 >= end - start
        },
        None => false,
    };
    assert(slide_through == slides_through(*event, effects@, end));
    let fall: Option<Note> = fall_note(id, event, states, frame_count, tpr);
    if slide_through {
        let note: Note = match fall {
            Some(note) => note,
            None => plain,
        };
        notes.push(note);
        assert(notes@ =~= before + seq![note]);
        return;
    }
    if percussion {
        if let Some(note) = fall {
            notes.push(note);
            assert(notes@ =~= before + seq![note]);
            return;
        }
    }
    if steps.len() <= 1 {
        let note: Note = with_glide(&plain, glide, None);
        notes.push(note);
        assert(notes@ =~= before + seq![note]);
        return;
    }
    proof {
        plateaus_tile_the_note(states@, event.voice.0 - 1, start as int, end as int);
    }
    let level: NoteLevel = export_velocity(event, states);
    let at: usize = notes.len();
    push_tied(notes, steps.as_slice(), level, tpr);
    let ghost tied = tied_notes(before.len() as int, steps@, level, tpr);
    assert(notes@ == before + tied);
    assert(notes@[at as int] == tied[0]);
    let opening: Note = with_glide(&notes[at], glide, None);
    notes.set(at, opening);
    assert(notes@ =~= before + tied.update(0, opening));
}

fn onto(pitch: u8, glide: Option<Glide>) -> (r: Option<(u8, Glide)>)
    ensures
        r == glide_onto(pitch, glide),
{
    match glide {
        Some(g) => Some((pitch, g)),
        None => None,
    }
}

fn keep_near(glide: Option<(u8, Glide)>, midi: u8) -> (r: Option<(u8, Glide)>)
    ensures
        r == near_glide(glide, midi),
{
    match glide {
        Some(g) => {
            let distance: i32 = g.0 as i32 - midi as i32;
            if distance <= MAX_ONSET_GLIDE_SEMITONES && distance >= -MAX_ONSET_GLIDE_SEMITONES {
                Some(g)
            } else {
                None
            }
        },
        None => None,
    }
}

fn with_glide(plain: &Note, glide: Option<(u8, Glide)>, vibrato: Option<Vibrato>) -> (r: Note)
    ensures
        r == single_note(*plain, glide, vibrato),
{
    let mut note: Note = *plain;
    note.vibrato = vibrato;
    match glide {
        Some(g) => {
            note.pitch = g.0 as u32;
            note.glide = Some(g.1);
        },
        None => {
            note.glide = None;
        },
    }
    note
}

/// A note with its release: it lasts until it has faded or lost its voice, if
/// the measured envelope is exported and the release keeps its waveform.
pub open spec fn released_note(
    note: Note,
    event: NoteEvent,
    states: Seq<ProgramFrame>,
    tpr: u32,
    owned_until: Option<u32>,
) -> Note {
    match event.sound_end {
        Some(faded) => if automatable(event, states) && stable_release(event, states) {
            let end = match owned_until {
                Some(f) => if f < faded {
                    f
                } else {
                    faded
                },
                None => faded,
            };
            let tail = ticks(end as int, tpr as int) - note.start;
            Note {
                duration: if tail > note.duration {
                    tail as u32
                } else {
                    note.duration
                },
                ..note
            }
        } else {
            note
        },
        None => note,
    }
}

/// Lengthens the last of the notes from `mark` on by the release of their event.
pub fn extend_release_tail(
    notes: &mut Vec<Note>,
    mark: usize,
    event: &NoteEvent,
    states: &[ProgramFrame],
    tpr: u32,
    owned_until: Option<u32>,
)
    requires
        event_fits(*event, states@),
    ensures
        final(notes)@ == (if old(notes)@.len() > mark {
            old(notes)@.drop_last().push(
                released_note(old(notes)@.last(), *event, states@, tpr, owned_until),
            )
        } else {
            old(notes)@
        }),
{
    let ghost before = notes@;
    if notes.len() <= mark {
        return;
    }
    assert(before.drop_last().push(before.last()) =~= before);
    let faded: u32 = match event.sound_end {
        Some(f) => f,
        None => {
            return;
        },
    };
    let end: u32 = match owned_until {
        Some(f) => if f < faded {
            f
        } else {
            faded
        },
        None => faded,
    };
    if !articulation_is_automatable(event, states) || !release_waveform_is_stable(event, states) {
        return;
    }
    if let Some(last) = notes.pop() {
        let mut note: Note = last;
        let end_tick: u32 = to_ticks(end, tpr);
        if end_tick > note.start && end_tick - note.start > note.duration {
            note.duration = end_tick - note.start;
        }
        notes.push(note);
    }
}

/// The frames of a note: the first, and how many.
pub open spec fn note_frames(note: Note, tpr: u32) -> (int, int) {
    let t = at_least_one(tpr as int);
    (note.start as int / t, at_least_one(note.duration as int / t))
}

/// Whether the end of a note can be counted in frames.
pub open spec fn note_fits(note: Note, tpr: u32) -> bool {
    let f = note_frames(note, tpr);
    f.0 + f.1 <= u32::MAX
}

/// Whether the chip sounds somewhere during a note.
pub open spec fn note_sounds(note: Note, states: Seq<ProgramFrame>, v: int, tpr: u32) -> bool {
    let span = note_frames(note, tpr);
    exists|f: int| span.0 <= f < span.0 + span.1 && #[trigger] sounding(states, v, f)
}

/// The notes during which the chip sounds, numbered from `n` on.
pub open spec fn sounding_notes(
    n: int,
    tail: Seq<Note>,
    states: Seq<ProgramFrame>,
    v: int,
    tpr: u32,
) -> Seq<Note>
    decreases tail.len(),
{
    if tail.len() == 0 {
        Seq::empty()
    } else {
        let before = sounding_notes(n, tail.drop_last(), states, v, tpr);
        if note_sounds(tail.last(), states, v, tpr) {
            before.push(Note { id: (n + before.len()) as u32, ..tail.last() })
        } else {
            before
        }
    }
}

/// Notes without those during which the chip is silent. If some were taken out,
/// the last of the others continues nothing.
pub open spec fn without_silent(
    n: int,
    tail: Seq<Note>,
    states: Seq<ProgramFrame>,
    v: int,
    tpr: u32,
) -> Seq<Note> {
    let kept = sounding_notes(n, tail, states, v, tpr);
    if 0 < kept.len() < tail.len() {
        kept.drop_last().push(Note { legato: false, ..kept.last() })
    } else {
        kept
    }
}

/// Takes out the notes from `mark` on during which the chip is silent, and tells
/// whether there were any.
pub fn drop_ungated_notes(
    notes: &mut Vec<Note>,
    mark: usize,
    tpr: u32,
    states: &[ProgramFrame],
    voice_index: usize,
) -> (r: bool)
    requires
        voice_index < 3,
        mark <= old(notes)@.len(),
        forall|i: int| mark <= i < old(notes)@.len() ==> note_fits(#[trigger] old(notes)@[i], tpr),
    ensures
        final(notes)@ == old(notes)@.take(mark as int) + without_silent(
            mark as int,
            old(notes)@.skip(mark as int),
            states@,
            voice_index as int,
            tpr,
        ),
        r == (final(notes)@.len() < old(notes)@.len()),
{
    let ghost all = notes@;
    let ghost head = all.take(mark as int);
    let ghost tail = all.skip(mark as int);
    let ghost v = voice_index as int;
    let t: u32 = if tpr < 1 {
        1
    } else {
        tpr
    };
    let count: usize = notes.len();
    let mut kept: Vec<Note> = Vec::new();
    let mut i: usize = mark;
    assert(tail.take(0) =~= Seq::<Note>::empty());
    while i < count
        invariant
            mark <= i <= count,
            count == all.len(),
            notes@ == all,
            tail == all.skip(mark as int),
            v == voice_index,
            voice_index < 3,
            t == at_least_one(tpr as int),
            forall|i: int| mark <= i < all.len() ==> note_fits(#[trigger] all[i], tpr),
            kept@ == sounding_notes(mark as int, tail.take(i - mark), states@, v, tpr),
            kept@.len() <= i - mark,
        decreases count - i,
    {
        proof {
            assert(tail.take(i + 1 - mark).drop_last() =~= tail.take(i - mark));
            assert(tail.take(i + 1 - mark).last() == all[i as int]);
            assert(note_fits(all[i as int], tpr));
        }
        let mut note: Note = notes[i];
        let first: u32 = note.start / t;
        let whole: u32 = note.duration / t;
        let frames: u32 = if whole < 1 {
            1
        } else {
            whole
        };
        if span_has_signal(states, voice_index, first, first + frames) {
            note.id = (mark + kept.len()) as u32;
            kept.push(note);
        }
        i += 1;
    }
    assert(tail.take(tail.len() as int) =~= tail);
    let dropped: bool = kept.len() < count - mark;
    if dropped {
        if let Some(last) = kept.pop() {
            let mut note: Note = last;
            note.legato = false;
            kept.push(note);
        }
    }
    assert(kept@ =~= without_silent(mark as int, tail, states@, v, tpr));
    notes.truncate(mark);
    assert(notes@ =~= head);
    let mut k: usize = 0;
    while k < kept.len()
        invariant
            k <= kept@.len(),
            notes@ == head + kept@.take(k as int),
        decreases kept@.len() - k,
    {
        notes.push(kept[k]);
        assert(kept@.take(k + 1) =~= kept@.take(k as int).push(kept@[k as int]));
        assert(notes@ =~= head + kept@.take(k + 1));
        k += 1;
    }
    assert(kept@.take(kept@.len() as int) =~= kept@);
    dropped
}

} // verus!
