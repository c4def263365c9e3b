//! A song as the target plays it: patterns of notes, tracks, and where the
//! patterns are placed.

pub mod assembly;
pub mod automated;
pub mod automation;
pub mod blocks;
pub mod canonical;
pub mod decimation;
pub mod lanes;
pub mod playback;

use super::emission::{Arpeggiator, ArpeggiatorView};
use super::notes::Vibrato;
use super::timbre::copy_items;
use vstd::prelude::*;

verus! {

/// How a note slides into its pitch: semitones and milliseconds, as
/// single-precision bit patterns.
#[derive(Debug, Clone, Copy, PartialEq, Eq, Structural)]
pub struct SongGlide {
    pub from: u32,
    pub time: u32,
}

/// A note of a pattern. Its velocity is a single-precision bit pattern.
#[derive(Debug, Clone, Copy, PartialEq, Eq, Structural)]
pub struct SongNote {
    pub id: u32,
    pub start: u32,
    pub duration: u32,
    pub pitch: u32,
    pub velocity: u32,
    pub track: Option<u32>,
    pub vibrato: Option<Vibrato>,
    pub glide: Option<SongGlide>,
    pub legato: bool,
}

/// What a note is musically.
#[derive(Debug, Clone, Copy, PartialEq, Eq, Structural)]
pub struct MusicalNoteIdentity {
    pub start: u32,
    pub duration: u32,
    pub pitch: u32,
    pub legato: bool,
}

/// How a note is played.
#[derive(Debug, Clone, Copy, PartialEq, Eq, Structural)]
pub struct NoteLocalExpression {
    pub velocity: u32,
    pub vibrato: Option<Vibrato>,
    pub glide: Option<SongGlide>,
}

/// What two notes have to share to be the same in a pattern.
#[derive(Debug, Clone, Copy, PartialEq, Eq, Structural)]
pub struct CanonicalNote {
    pub musical: MusicalNoteIdentity,
    pub expression: NoteLocalExpression,
}

/// A note without its number and its track.
pub open spec fn canonical(note: SongNote) -> CanonicalNote {
    CanonicalNote {
        musical: MusicalNoteIdentity {
            start: note.start,
            duration: note.duration,
            pitch: note.pitch,
            legato: note.legato,
        },
        expression: NoteLocalExpression {
            velocity: note.velocity,
            vibrato: note.vibrato,
            glide: note.glide,
        },
    }
}

impl CanonicalNote {
    /// A note without its number and its track.
    pub fn from_note(note: &SongNote) -> (r: CanonicalNote)
        ensures
            r == canonical(*note),
    {
        CanonicalNote {
            musical: MusicalNoteIdentity {
                start: note.start,
                duration: note.duration,
                pitch: note.pitch,
                legato: note.legato,
            },
            expression: NoteLocalExpression {
                velocity: note.velocity,
                vibrato: note.vibrato,
                glide: note.glide,
            },
        }
    }
}

/// Notes without their numbers and tracks.
pub open spec fn canonical_notes(notes: Seq<SongNote>) -> Seq<CanonicalNote> {
    Seq::new(notes.len(), |i: int| canonical(notes[i]))
}

/// A block of notes with its automation and its arpeggiators.
#[derive(Debug)]
pub struct Pattern {
    pub id: u32,
    pub name: String,
    pub length: u32,
    pub notes: Vec<SongNote>,
    /// The places of the pattern's lanes in the list of all lanes.
    pub automation: Vec<usize>,
    pub next_note_id: u32,
    pub processors: Vec<Arpeggiator>,
    pub note_graph: Option<u32>,
}

/// A pattern as plain values.
pub struct PatternView {
    pub id: u32,
    pub name: Seq<char>,
    pub length: u32,
    pub notes: Seq<SongNote>,
    pub automation: Seq<usize>,
    pub next_note_id: u32,
    pub processors: Seq<ArpeggiatorView>,
    pub note_graph: Option<u32>,
}

/// Arpeggiators as plain values.
pub open spec fn processor_views(p: Seq<Arpeggiator>) -> Seq<ArpeggiatorView> {
    Seq::new(p.len(), |i: int| p[i].view())
}

impl Pattern {
    /// The pattern as plain values.
    pub open spec fn view(self) -> PatternView {
        PatternView {
            id: self.id,
            name: self.name@,
            length: self.length,
            notes: self.notes@,
            automation: self.automation@,
            next_note_id: self.next_note_id,
            processors: processor_views(self.processors@),
            note_graph: self.note_graph,
        }
    }
}

/// Patterns as plain values.
pub open spec fn pattern_views(patterns: Seq<Pattern>) -> Seq<PatternView> {
    Seq::new(patterns.len(), |i: int| patterns[i].view())
}

/// Where a pattern is placed. Its gain is a single-precision bit pattern.
#[derive(Debug, Clone, Copy, PartialEq, Eq, Structural)]
pub struct PatternPlacement {
    pub pattern_id: u32,
    pub track_id: u32,
    pub start: u32,
    pub transpose: i32,
    pub gain: u32,
    pub length_override: Option<u32>,
}

/// A track of a song.
#[derive(Debug)]
pub struct Track {
    pub id: u32,
    pub name: String,
    pub instrument: u32,
    pub color: TrackColor,
}

/// A color of red, green and blue.
#[derive(Debug, Clone, Copy, PartialEq, Eq, Structural)]
pub struct TrackColor {
    pub r: u8,
    pub g: u8,
    pub b: u8,
}

/// A track as plain values.
pub struct TrackView {
    pub id: u32,
    pub name: Seq<char>,
    pub instrument: u32,
    pub color: TrackColor,
}

impl Track {
    /// The track as plain values.
    pub open spec fn view(self) -> TrackView {
        TrackView {
            id: self.id,
            name: self.name@,
            instrument: self.instrument,
            color: self.color,
        }
    }
}

/// Tracks as plain values.
pub open spec fn track_views(tracks: Seq<Track>) -> Seq<TrackView> {
    Seq::new(tracks.len(), |i: int| tracks[i].view())
}

/// The color of the tracks of a voice, counted from zero.
pub open spec fn voice_color(voice_index: int) -> TrackColor {
    if voice_index == 0 {
        TrackColor { r: 255, g: 180, b: 90 }
    } else if voice_index == 1 {
        TrackColor { r: 90, g: 180, b: 255 }
    } else {
        TrackColor { r: 150, g: 220, b: 120 }
    }
}

/// The color of the tracks of a voice, counted from zero.
pub fn track_color(voice_index: usize) -> (r: TrackColor)
    ensures
        r == voice_color(voice_index as int),
{
    if voice_index == 0 {
        TrackColor { r: 255, g: 180, b: 90 }
    } else if voice_index == 1 {
        TrackColor { r: 90, g: 180, b: 255 }
    } else {
        TrackColor { r: 150, g: 220, b: 120 }
    }
}

/// What two patterns have to share to be the same: their notes and their
/// arpeggiators.
pub struct BodyView {
    pub notes: Seq<CanonicalNote>,
    pub processors: Seq<ArpeggiatorView>,
}

/// The body of a pattern.
pub open spec fn body(p: PatternView) -> BodyView {
    BodyView { notes: canonical_notes(p.notes), processors: p.processors }
}

/// Whether two arpeggiators are the same.
pub fn same_arpeggiator(a: &Arpeggiator, b: &Arpeggiator) -> (r: bool)
    ensures
        r == (a.view() == b.view()),
{
    if a.custom.len() != b.custom.len() {
        return false;
    }
    let mut i: usize = 0;
    while i < a.custom.len()
        invariant
            i <= a.custom@.len(),
            a.custom@.len() == b.custom@.len(),
            forall|j: int| 0 <= j < i ==> a.custom@[j] == b.custom@[j],
        decreases a.custom@.len() - i,
    {
        if a.custom[i] != b.custom[i] {
            return false;
        }
        i += 1;
    }
    assert(a.custom@ =~= b.custom@);
    a.rate_millihz == b.rate_millihz && a.octaves == b.octaves && a.legato == b.legato && a.gate
        == b.gate
}

/// Whether two lists of arpeggiators are the same.
pub fn same_processors(a: &[Arpeggiator], b: &[Arpeggiator]) -> (r: bool)
    ensures
        r == (processor_views(a@) == processor_views(b@)),
{
    if a.len() != b.len() {
        assert(processor_views(a@).len() != processor_views(b@).len());
        return false;
    }
    let mut i: usize = 0;
    while i < a.len()
        invariant
            i <= a@.len(),
            a@.len() == b@.len(),
            forall|j: int| 0 <= j < i ==> (#[trigger] a@[j]).view() == b@[j].view(),
        decreases a@.len() - i,
    {
        if !same_arpeggiator(&a[i], &b[i]) {
            assert(processor_views(a@)[i as int] != processor_views(b@)[i as int]);
            return false;
        }
        i += 1;
    }
    assert(processor_views(a@) =~= processor_views(b@));
    true
}

/// Whether a list of notes begins with another one, but for numbers and tracks.
pub open spec fn begins_with(long: Seq<SongNote>, short: Seq<SongNote>) -> bool {
    short.len() <= long.len() && canonical_notes(long).take(short.len() as int) == canonical_notes(
        short,
    )
}

/// Tells whether a list of notes begins with another one.
pub fn notes_begin_with(long: &[SongNote], short: &[SongNote]) -> (r: bool)
    ensures
        r == begins_with(long@, short@),
{
    if short.len() > long.len() {
        return false;
    }
    let ghost a = canonical_notes(long@).take(short@.len() as int);
    let ghost b = canonical_notes(short@);
    let mut i: usize = 0;
    while i < short.len()
        invariant
            i <= short@.len() <= long@.len(),
            a == canonical_notes(long@).take(short@.len() as int),
            b == canonical_notes(short@),
            forall|j: int| 0 <= j < i ==> #[trigger] a[j] == b[j],
        decreases short@.len() - i,
    {
        let x: CanonicalNote = CanonicalNote::from_note(&long[i]);
        let y: CanonicalNote = CanonicalNote::from_note(&short[i]);
        assert(a[i as int] == x && b[i as int] == y);
        if x != y {
            return false;
        }
        i += 1;
    }
    assert(a =~= b);
    true
}

/// Whether two lists of notes and arpeggiators are the same, but for numbers and
/// tracks.
pub fn same_body(
    notes: &[SongNote],
    processors: &[Arpeggiator],
    other_notes: &[SongNote],
    other_processors: &[Arpeggiator],
) -> (r: bool)
    ensures
        r == ((BodyView {
            notes: canonical_notes(notes@),
            processors: processor_views(processors@),
        }) == (BodyView {
            notes: canonical_notes(other_notes@),
            processors: processor_views(other_processors@),
        })),
{
    if notes.len() != other_notes.len() {
        assert(canonical_notes(notes@).len() != canonical_notes(other_notes@).len());
        return false;
    }
    let begins: bool = notes_begin_with(notes, other_notes);
    assert(canonical_notes(notes@).take(other_notes@.len() as int) =~= canonical_notes(notes@));
    begins && same_processors(processors, other_processors)
}

/// A copy of an arpeggiator.
pub fn copy_arpeggiator(a: &Arpeggiator) -> (r: Arpeggiator)
    ensures
        r.view() == a.view(),
{
    Arpeggiator {
        custom: copy_items(a.custom.as_slice()),
        rate_millihz: a.rate_millihz,
        octaves: a.octaves,
        legato: a.legato,
        gate: a.gate,
    }
}

} // verus!
