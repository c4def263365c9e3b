//! Writing out the notes of a planned track.

pub mod written;

use crate::analysis::frame::{EffectSpan, NoteEvent, ProgramFrame};
use crate::analysis::patch::Patch;
use super::articulation::{authored_end, gating_stays_inside, note_level};
use super::notes::{
    arpeggio_notes, arpeggio_pitches, at_least_one, bake_pitch_runs, baked_notes, build_note,
    drop_ungated_notes, event_fits, expand_arpeggio, expressive_notes, extend_release_tail, fall_of,
    fallen_note, gated_span, note_fits, plain_note, push_expressive_notes, released_note, ticks,
    tied_notes, without_silent, Note, PitchMeasures,
};
use super::ownership::{first_after, PhysicalVoiceOwnership};
use super::pitch::{pitch_runs, plateaus, plateaus_tile_the_note, runs_are_contiguous, Plateau};
use super::timbre::{copy_items, is_sid_percussion, tuned_percussion};
use super::tracks::{Segment, SynthNote, TrackPlan};
use vstd::prelude::*;

verus! {

/// Whether the ends of all notes can be counted in frames.
pub open spec fn all_fit(notes: Seq<Note>, tpr: u32) -> bool {
    forall|i: int| 0 <= i < notes.len() ==> note_fits(#[trigger] notes[i], tpr)
}

proof fn ticks_to_frames(frames: int, tpr: int)
    requires
        0 <= frames <= u32::MAX,
        0 < tpr <= u32::MAX,
    ensures
        0 <= ticks(frames, tpr) as int / tpr <= frames,
{
    let t = ticks(frames, tpr) as int;
    assert(0 <= frames * tpr) by (nonlinear_arith)
        requires
            0 <= frames,
            0 < tpr,
    ;
    assert(0 <= t / tpr <= frames) by (nonlinear_arith)
        requires
            0 <= t <= frames * tpr,
            0 < tpr,
    ;
}

/// A note that starts at a frame and lasts a number of frames fits if its end
/// does.
proof fn frames_fit(note: Note, first: int, len: int, tpr: u32)
    requires
        0 <= first,
        1 <= len,
        first + len <= u32::MAX,
        tpr > 0,
        note.start == ticks(first, tpr as int),
        note.duration == ticks(len, tpr as int),
    ensures
        note_fits(note, tpr),
{
    ticks_to_frames(first, tpr as int);
    ticks_to_frames(len, tpr as int);
}

proof fn plain_fits(
    id: u32,
    event: NoteEvent,
    tpr: u32,
    frame_count: u32,
    states: Seq<ProgramFrame>,
)
    requires
        event_fits(event, states),
        tpr > 0,
    ensures
        note_fits(plain_note(id, event, tpr, frame_count, states), tpr),
        ({
            let span = gated_span(event, states, frame_count);
            0 <= span.0 && span.0 + at_least_one(span.1 - span.0) <= u32::MAX && span.0
                < event.start_frame + 5
        }),
{
    let span = gated_span(event, states, frame_count);
    let end = authored_end(event, frame_count);
    gating_stays_inside(states, event.voice.0 - 1, event.start_frame as int, end as int);
    frames_fit(
        plain_note(id, event, tpr, frame_count, states),
        span.0,
        at_least_one(span.1 - span.0),
        tpr,
    );
}

proof fn runs_fit(n: int, pitches: Seq<Option<u8>>, start: int, event: NoteEvent, states: Seq<ProgramFrame>, tpr: u32)
    requires
        0 <= start,
        start + pitches.len() <= u32::MAX,
        tpr > 0,
    ensures
        all_fit(tied_notes(n, pitch_runs(pitches, start), note_level(event, states), tpr), tpr),
{
    let runs = pitch_runs(pitches, start);
    let notes = tied_notes(n, runs, note_level(event, states), tpr);
    runs_are_contiguous(pitches, start);
    assert forall|i: int| 0 <= i < notes.len() implies note_fits(#[trigger] notes[i], tpr) by {
        if i < runs.len() - 1 {
            assert(runs[i].start + runs[i].len <= runs[runs.len() - 1].start);
        }
        frames_fit(notes[i], runs[i].start as int, runs[i].len as int, tpr);
    }
}

proof fn plateau_ends(p: Seq<Plateau>, end: int, k: int)
    requires
        p.len() > 0,
        p.last().start + p.last().len == end,
        forall|k: int|
            0 <= k < p.len() - 1 ==> (#[trigger] p[k]).start + p[k].len == p[k + 1].start,
        0 <= k < p.len(),
    ensures
        p[k].start + p[k].len <= end,
    decreases p.len() - k,
{
    if k < p.len() - 1 {
        plateau_ends(p, end, k + 1);
    }
}

proof fn arpeggio_fits(
    n: int,
    event: NoteEvent,
    offsets: Seq<i8>,
    tpr: u32,
    frame_count: u32,
    states: Seq<ProgramFrame>,
)
    requires
        event_fits(event, states),
        tpr > 0,
    ensures
        all_fit(arpeggio_notes(n, event, offsets, tpr, frame_count, states), tpr),
{
    let end = authored_end(event, frame_count);
    plain_fits(n as u32, event, tpr, frame_count, states);
    if end > event.start_frame {
        runs_fit(
            n,
            arpeggio_pitches(event.midi, offsets, (end - event.start_frame) as nat),
            event.start_frame as int,
            event,
            states,
            tpr,
        );
    }
}

proof fn baked_fits(
    n: int,
    event: NoteEvent,
    pitches: Seq<Option<u8>>,
    tpr: u32,
    frame_count: u32,
    states: Seq<ProgramFrame>,
)
    requires
        event_fits(event, states),
        gated_span(event, states, frame_count).0 + pitches.len() <= u32::MAX,
        tpr > 0,
    ensures
        all_fit(
            baked_notes(
                n,
                event,
                gated_span(event, states, frame_count).0 as u32,
                pitches,
                tpr,
                frame_count,
                states,
            ),
            tpr,
        ),
{
    plain_fits(n as u32, event, tpr, frame_count, states);
    runs_fit(n, pitches, gated_span(event, states, frame_count).0, event, states, tpr);
}

proof fn fallen_fits(
    id: u32,
    event: NoteEvent,
    tpr: u32,
    frame_count: u32,
    states: Seq<ProgramFrame>,
)
    requires
        event_fits(event, states),
        tpr > 0,
    ensures
        fallen_note(id, event, tpr, frame_count, states) matches Some(note) ==> note_fits(
            note,
            tpr,
        ),
{
    let note = plain_note(id, event, tpr, frame_count, states);
    let span = gated_span(event, states, frame_count);
    plain_fits(id, event, tpr, frame_count, states);
    ticks_to_frames(span.0, tpr as int);
    ticks_to_frames(at_least_one(span.1 - span.0), tpr as int);
    let start = (note.start / tpr) as int;
    let gated_end = start + (note.duration / tpr) as int;
    match fall_of(states, event.voice.0 - 1, event.midi, gated_end, frame_count) {
        Some(fall) => {
            let len = at_least_one(fall.end_frame - start);
            ticks_to_frames(len, tpr as int);
        },
        None => {},
    }
}

proof fn expressive_fits(
    n: int,
    event: NoteEvent,
    states: Seq<ProgramFrame>,
    effects: Seq<EffectSpan>,
    m: PitchMeasures,
    frame_count: u32,
    tpr: u32,
    percussion: bool,
)
    requires
        event_fits(event, states),
        tpr > 0,
    ensures
        expressive_notes(n, event, states, effects, m, frame_count, tpr, percussion).len() > 0,
        all_fit(
            expressive_notes(n, event, states, effects, m, frame_count, tpr, percussion),
            tpr,
        ),
{
    let end = authored_end(event, frame_count);
    let steps = plateaus(states, event.voice.0 - 1, event.start_frame as int, end as int);
    plain_fits(n as u32, event, tpr, frame_count, states);
    fallen_fits(n as u32, event, tpr, frame_count, states);
    plateaus_tile_the_note(states, event.voice.0 - 1, event.start_frame as int, end as int);
    if steps.len() > 1 {
        let tied = tied_notes(n, steps, note_level(event, states), tpr);
        assert forall|k: int| 0 <= k < tied.len() implies note_fits(#[trigger] tied[k], tpr) by {
            plateau_ends(steps, end as int, k);
            assert(steps[k].len > 0);
            frames_fit(tied[k], steps[k].start as int, steps[k].len as int, tpr);
        }
        assert(note_fits(tied[0], tpr));
    }
}

proof fn released_fits(
    note: Note,
    event: NoteEvent,
    states: Seq<ProgramFrame>,
    tpr: u32,
    owned_until: Option<u32>,
)
    requires
        note_fits(note, tpr),
        tpr > 0,
    ensures
        note_fits(released_note(note, event, states, tpr, owned_until), tpr),
{
    match event.sound_end {
        Some(faded) => {
            let end = match owned_until {
                Some(f) => if f < faded {
                    f
                } else {
                    faded
                },
                None => faded,
            };
            let t = tpr as int;
            let end_tick = ticks(end as int, t) as int;
            let start = note.start as int;
            ticks_to_frames(end as int, t);
            if end_tick > start {
                assert(start / t + (end_tick - start) / t <= end_tick / t) by (nonlinear_arith)
                    requires
                        0 <= start < end_tick,
                        t > 0,
                ;
            }
        },
        None => {},
    }
}

/// What was found outside of the notes themselves about an event: its pitch
/// measures, whether its written notes agree with the trace, and the pitches
/// that the chip played from the event's gate on.
#[derive(Debug)]
pub struct EventInput {
    pub measures: PitchMeasures,
    /// Whether the proposed notes agree with the trace, where that can be told.
    pub verdict: Option<bool>,
    pub pitches: Vec<Option<u8>>,
}

/// How the notes of a track are written.
#[derive(Debug, Clone, Copy)]
pub struct EmissionOptions {
    pub frame_count: u32,
    pub ticks_per_frame: u32,
    /// Whether proposals that disagree with the trace are replaced.
    pub forward_gate: bool,
    /// Whether the target's arpeggiator plays the arpeggio of the track.
    pub arpeggiator: bool,
}

/// The arpeggio that a segment plays.
pub open spec fn segment_arpeggio(segment: Segment, patches: Seq<Patch>) -> Option<Seq<i8>> {
    match (segment.patch, segment.profile) {
        (Some(p), Some(q)) => match patches[p as int].voices@[q as int].arpeggio_loop {
            Some(a) => if a@.len() > 0 {
                Some(a@)
            } else {
                None
            },
            None => None,
        },
        _ => None,
    }
}

/// Whether a segment plays tuned percussion.
pub open spec fn segment_percussion(segment: Segment, patches: Seq<Patch>) -> bool {
    segment.patch matches Some(p) && tuned_percussion(patches[p as int])
}

/// Segments name sounds that exist.
pub open spec fn segments_fit(segments: Seq<Segment>, patches: Seq<Patch>) -> bool {
    forall|s: int|
        0 <= s < segments.len() ==> ((#[trigger] segments[s]).patch matches Some(p) ==> p
            < patches.len() && (segments[s].profile matches Some(q) ==> q
            < patches[p as int].voices@.len()))
}

/// The notes that are first proposed for an event.
pub open spec fn proposed_notes(
    n: int,
    event: NoteEvent,
    arpeggio: Option<Seq<i8>>,
    percussion: bool,
    input: EventInput,
    states: Seq<ProgramFrame>,
    effects: Seq<EffectSpan>,
    owned_until: Option<u32>,
    o: EmissionOptions,
) -> Seq<Note> {
    match arpeggio {
        Some(offsets) => arpeggio_notes(
            n,
            event,
            offsets,
            o.ticks_per_frame,
            o.frame_count,
            states,
        ),
        None => {
            let notes = expressive_notes(
                n,
                event,
                states,
                effects,
                input.measures,
                o.frame_count,
                o.ticks_per_frame,
                percussion,
            );
            if percussion {
                notes
            } else {
                notes.drop_last().push(
                    released_note(notes.last(), event, states, o.ticks_per_frame, owned_until),
                )
            }
        },
    }
}

/// The notes that are checked for silence: the proposal, or what the chip played
/// if the proposal disagrees with it.
pub open spec fn settled_notes(
    n: int,
    event: NoteEvent,
    arpeggio: Option<Seq<i8>>,
    percussion: bool,
    input: EventInput,
    states: Seq<ProgramFrame>,
    effects: Seq<EffectSpan>,
    owned_until: Option<u32>,
    o: EmissionOptions,
) -> Seq<Note> {
    if input.verdict == Some(false) {
        baked_notes(
            n,
            event,
            gated_span(event, states, o.frame_count).0 as u32,
            input.pitches@,
            o.ticks_per_frame,
            o.frame_count,
            states,
        )
    } else {
        proposed_notes(n, event, arpeggio, percussion, input, states, effects, owned_until, o)
    }
}

/// The notes that an event is written as, after `n` others. The target's
/// arpeggiator needs a single held note.
pub open spec fn event_notes(
    n: int,
    event: NoteEvent,
    arpeggio: Option<Seq<i8>>,
    percussion: bool,
    input: EventInput,
    states: Seq<ProgramFrame>,
    effects: Seq<EffectSpan>,
    owned_until: Option<u32>,
    o: EmissionOptions,
) -> Seq<Note> {
    if arpeggio is Some && o.arpeggiator {
        seq![plain_note(n as u32, event, o.ticks_per_frame, o.frame_count, states)]
    } else if !o.forward_gate {
        proposed_notes(n, event, arpeggio, percussion, input, states, effects, owned_until, o)
    } else {
        without_silent(
            n,
            settled_notes(
                n,
                event,
                arpeggio,
                percussion,
                input,
                states,
                effects,
                owned_until,
                o,
            ),
            states,
            event.voice.0 - 1,
            o.ticks_per_frame,
        )
    }
}

/// Proposes the notes of an event, behind those that are already there.
pub fn propose_event(
    notes: &mut Vec<Note>,
    event: &NoteEvent,
    arpeggio: Option<&[i8]>,
    percussion: bool,
    input: &EventInput,
    states: &[ProgramFrame],
    effects: &[EffectSpan],
    owned_until: Option<u32>,
    o: &EmissionOptions,
)
    requires
        event_fits(*event, states@),
        o.ticks_per_frame > 0,
        arpeggio matches Some(a) ==> a@.len() > 0,
    ensures
        final(notes)@ == old(notes)@ + proposed_notes(
            old(notes)@.len() as int,
            *event,
            offsets_view(arpeggio),
            percussion,
            *input,
            states@,
            effects@,
            owned_until,
            *o,
        ),
{
    let ghost before = notes@;
    let mark: usize = notes.len();
    match arpeggio {
        Some(offsets) => {
            expand_arpeggio(notes, event, offsets, o.ticks_per_frame, o.frame_count, states);
        },
        None => {
            push_expressive_notes(
                notes,
                event,
                states,
                effects,
                &input.measures,
                o.frame_count,
                o.ticks_per_frame,
                percussion,
            );
            let ghost pushed = expressive_notes(
                mark as int,
                *event,
                states@,
                effects@,
                input.measures,
                o.frame_count,
                o.ticks_per_frame,
                percussion,
            );
            proof {
                expressive_fits(
                    mark as int,
                    *event,
                    states@,
                    effects@,
                    input.measures,
                    o.frame_count,
                    o.ticks_per_frame,
                    percussion,
                );
            }
            if !percussion {
                extend_release_tail(notes, mark, event, states, o.ticks_per_frame, owned_until);
                assert((before + pushed).drop_last() =~= before + pushed.drop_last());
                assert(notes@ =~= before + pushed.drop_last().push(
                    released_note(
                        pushed.last(),
                        *event,
                        states@,
                        o.ticks_per_frame,
                        owned_until,
                    ),
                ));
            }
        },
    }
}

/// The values behind an optional list of offsets.
pub open spec fn offsets_view(a: Option<&[i8]>) -> Option<Seq<i8>> {
    match a {
        Some(x) => Some(x@),
        None => None,
    }
}

proof fn proposed_fit(
    n: int,
    event: NoteEvent,
    arpeggio: Option<Seq<i8>>,
    percussion: bool,
    input: EventInput,
    states: Seq<ProgramFrame>,
    effects: Seq<EffectSpan>,
    owned_until: Option<u32>,
    o: EmissionOptions,
)
    requires
        event_fits(event, states),
        o.ticks_per_frame > 0,
    ensures
        all_fit(
            proposed_notes(
                n,
                event,
                arpeggio,
                percussion,
                input,
                states,
                effects,
                owned_until,
                o,
            ),
            o.ticks_per_frame,
        ),
{
    match arpeggio {
        Some(offsets) => {
            arpeggio_fits(n, event, offsets, o.ticks_per_frame, o.frame_count, states);
        },
        None => {
            let notes = expressive_notes(
                n,
                event,
                states,
                effects,
                input.measures,
                o.frame_count,
                o.ticks_per_frame,
                percussion,
            );
            expressive_fits(
                n,
                event,
                states,
                effects,
                input.measures,
                o.frame_count,
                o.ticks_per_frame,
                percussion,
            );
            assert(note_fits(notes[notes.len() - 1], o.ticks_per_frame));
            released_fits(notes.last(), event, states, o.ticks_per_frame, owned_until);
        },
    }
}

/// Writes out an event, and tells whether its proposal was replaced and whether
/// silent notes were taken out.
pub fn push_event(
    notes: &mut Vec<Note>,
    event: &NoteEvent,
    arpeggio: Option<&[i8]>,
    percussion: bool,
    input: &EventInput,
    states: &[ProgramFrame],
    effects: &[EffectSpan],
    owned_until: Option<u32>,
    o: &EmissionOptions,
) -> (r: (bool, bool))
    requires
        event_fits(*event, states@),
        o.ticks_per_frame > 0,
        arpeggio matches Some(a) ==> a@.len() > 0,
        gated_span(*event, states@, o.frame_count).0 + input.pitches@.len() <= u32::MAX,
    ensures
        final(notes)@ == old(notes)@ + event_notes(
            old(notes)@.len() as int,
            *event,
            offsets_view(arpeggio),
            percussion,
            *input,
            states@,
            effects@,
            owned_until,
            *o,
        ),
        r.0 == (o.forward_gate && input.verdict == Some(false) && !(arpeggio is Some
            && o.arpeggiator)),
        r.1 == (o.forward_gate && !(arpeggio is Some && o.arpeggiator) && event_notes(
            old(notes)@.len() as int,
            *event,
            offsets_view(arpeggio),
            percussion,
            *input,
            states@,
            effects@,
            owned_until,
            *o,
        ).len() < settled_notes(
            old(notes)@.len() as int,
            *event,
            offsets_view(arpeggio),
            percussion,
            *input,
            states@,
            effects@,
            owned_until,
            *o,
        ).len()),
{
    let ghost before = notes@;
    let mark: usize = notes.len();
    if arpeggio.is_some() && o.arpeggiator {
        let note: Note = build_note(
            mark as u32,
            event,
            o.ticks_per_frame,
            o.frame_count,
            states,
        );
        notes.push(note);
        assert(notes@ =~= before + seq![note]);
        return (false, false);
    }
    let replace: bool = o.forward_gate && match input.verdict {
        Some(agrees) => !agrees,
        None => false,
    };
    if replace {
        bake_pitch_runs(
            notes,
            event,
            input.pitches.as_slice(),
            o.ticks_per_frame,
            o.frame_count,
            states,
        );
    } else {
        propose_event(
            notes,
            event,
            arpeggio,
            percussion,
            input,
            states,
            effects,
            owned_until,
            o,
        );
    }
    if !o.forward_gate {
        return (false, false);
    }
    let ghost settled = settled_notes(
        mark as int,
        *event,
        offsets_view(arpeggio),
        percussion,
        *input,
        states@,
        effects@,
        owned_until,
        *o,
    );
    proof {
        baked_fits(
            mark as int,
            *event,
            input.pitches@,
            o.ticks_per_frame,
            o.frame_count,
            states@,
        );
        proposed_fit(
            mark as int,
            *event,
            offsets_view(arpeggio),
            percussion,
            *input,
            states@,
            effects@,
            owned_until,
            *o,
        );
        assert(notes@ == before + settled);
        assert forall|i: int| mark <= i < notes@.len() implies note_fits(
            #[trigger] notes@[i],
            o.ticks_per_frame,
        ) by {
            assert(notes@[i] == settled[i - mark]);
        }
        assert(notes@.take(mark as int) =~= before);
        assert(notes@.skip(mark as int) =~= settled);
    }
    let silent: bool = drop_ungated_notes(
        notes,
        mark,
        o.ticks_per_frame,
        states,
        event.voice.to_index(),
    );
    (replace, silent)
}

/// A track with what is known of its notes.
pub struct TrackInput<'a> {
    pub plan: &'a TrackPlan,
    pub events: &'a [SynthNote],
    pub patches: &'a [Patch],
    /// One for each entry of the timeline.
    pub inputs: &'a [EventInput],
    pub states: &'a [ProgramFrame],
    pub effects: &'a [EffectSpan],
    pub ownership: &'a PhysicalVoiceOwnership,
    pub options: EmissionOptions,
}

/// The event of an entry of a track's timeline.
pub open spec fn entry_event(t: TrackInput, k: int) -> NoteEvent {
    t.events@[t.plan.timeline@[k].1 as int].event
}

/// The segment of an entry of a track's timeline.
pub open spec fn entry_segment(t: TrackInput, k: int) -> Segment {
    t.plan.segments@[t.plan.timeline@[k].0 as int]
}

/// What writing a track out asks for: its parts exist, and machine limits hold
/// of its events.
pub open spec fn track_fits(t: TrackInput) -> bool {
    &&& t.options.ticks_per_frame > 0
    &&& t.ownership.wf()
    &&& t.inputs@.len() == t.plan.timeline@.len()
    &&& segments_fit(t.plan.segments@, t.patches@)
    &&& forall|k: int| 0 <= k < t.plan.timeline@.len() ==> #[trigger] entry_fits(t, k)
}

/// What writing out an entry asks for.
pub open spec fn entry_fits(t: TrackInput, k: int) -> bool {
    &&& t.plan.timeline@[k].0 < t.plan.segments@.len()
    &&& t.plan.timeline@[k].1 < t.events@.len()
    &&& event_fits(entry_event(t, k), t.states@)
    &&& gated_span(entry_event(t, k), t.states@, t.options.frame_count).0
        + t.inputs@[k].pitches@.len() <= u32::MAX
}

/// The notes of an entry of a track's timeline, after `n` others.
pub open spec fn entry_notes(t: TrackInput, n: int, k: int) -> Seq<Note> {
    let event = entry_event(t, k);
    event_notes(
        n,
        event,
        segment_arpeggio(entry_segment(t, k), t.patches@),
        segment_percussion(entry_segment(t, k), t.patches@),
        t.inputs@[k],
        t.states@,
        t.effects@,
        first_after(t.ownership.starts_on(event.voice), event.start_frame),
        t.options,
    )
}

/// The notes of the first `k` entries of a track's timeline.
pub open spec fn track_notes(t: TrackInput, k: int) -> Seq<Note>
    decreases k,
{
    if k <= 0 {
        Seq::empty()
    } else {
        let before = track_notes(t, k - 1);
        before + entry_notes(t, before.len() as int, k - 1)
    }
}

/// Whether the arpeggiator plays an entry.
pub open spec fn entry_is_held(t: TrackInput, k: int) -> bool {
    segment_arpeggio(entry_segment(t, k), t.patches@) is Some && t.options.arpeggiator
}

/// Whether the proposal for an entry was replaced.
pub open spec fn entry_degraded(t: TrackInput, k: int) -> bool {
    t.options.forward_gate && t.inputs@[k].verdict == Some(false) && !entry_is_held(t, k)
}

/// Whether silent notes of an entry were taken out.
pub open spec fn entry_silenced(t: TrackInput, k: int) -> bool {
    let n = track_notes(t, k).len() as int;
    let event = entry_event(t, k);
    t.options.forward_gate && !entry_is_held(t, k) && entry_notes(t, n, k).len() < settled_notes(
        n,
        event,
        segment_arpeggio(entry_segment(t, k), t.patches@),
        segment_percussion(entry_segment(t, k), t.patches@),
        t.inputs@[k],
        t.states@,
        t.effects@,
        first_after(t.ownership.starts_on(event.voice), event.start_frame),
        t.options,
    ).len()
}

/// How many of the first `k` entries had their proposals replaced.
pub open spec fn degraded_count(t: TrackInput, k: int) -> nat
    decreases k,
{
    if k <= 0 {
        0
    } else {
        degraded_count(t, k - 1) + (if entry_degraded(t, k - 1) {
            1nat
        } else {
            0
        })
    }
}

/// How many of the first `k` entries had silent notes taken out.
pub open spec fn silenced_count(t: TrackInput, k: int) -> nat
    decreases k,
{
    if k <= 0 {
        0
    } else {
        silenced_count(t, k - 1) + (if entry_silenced(t, k - 1) {
            1nat
        } else {
            0
        })
    }
}

/// The notes of a track.
#[derive(Debug)]
pub struct TrackNotes {
    pub notes: Vec<Note>,
    /// How many events had their proposals replaced.
    pub events_degraded: usize,
    /// How many events had silent notes taken out.
    pub events_silent: usize,
}

fn arpeggio_of<'a>(segment: &Segment, patches: &'a [Patch]) -> (r: Option<&'a [i8]>)
    requires
        segment.patch matches Some(p) ==> p < patches@.len() && (segment.profile matches Some(q)
            ==> q < patches@[p as int].voices@.len()),
    ensures
        offsets_view(r) == segment_arpeggio(*segment, patches@),
        r matches Some(a) ==> a@.len() > 0,
{
    match (segment.patch, segment.profile) {
        (Some(p), Some(q)) => match &patches[p].voices[q].arpeggio_loop {
            Some(a) => if a.len() > 0 {
                Some(a.as_slice())
            } else {
                None
            },
            None => None,
        },
        _ => None,
    }
}

/// Writes out the notes of a track, event by event in the order of time.
pub fn write_track(t: &TrackInput) -> (r: TrackNotes)
    requires
        track_fits(*t),
    ensures
        r.notes@ == track_notes(*t, t.plan.timeline@.len() as int),
        r.events_degraded == degraded_count(*t, t.plan.timeline@.len() as int),
        r.events_silent == silenced_count(*t, t.plan.timeline@.len() as int),
{
    let mut notes: Vec<Note> = Vec::new();
    let mut degraded: usize = 0;
    let mut silent: usize = 0;
    let mut k: usize = 0;
    while k < t.plan.timeline.len()
        invariant
            k <= t.plan.timeline@.len(),
            track_fits(*t),
            notes@ == track_notes(*t, k as int),
            degraded == degraded_count(*t, k as int),
            silent == silenced_count(*t, k as int),
            degraded <= k,
            silent <= k,
        decreases t.plan.timeline@.len() - k,
    {
        assert(entry_fits(*t, k as int));
        let (s, e) = t.plan.timeline[k];
        let segment: &Segment = &t.plan.segments[s];
        assert(segments_fit(t.plan.segments@, t.patches@));
        let arpeggio: Option<&[i8]> = arpeggio_of(segment, t.patches);
        let percussion: bool = match segment.patch {
            Some(p) => is_sid_percussion(&t.patches[p]),
            None => false,
        };
        let event: &NoteEvent = &t.events[e].event;
        let owned: Option<u32> = t.ownership.end(event);
        let (replaced, silenced) = push_event(
            &mut notes,
            event,
            arpeggio,
            percussion,
            &t.inputs[k],
            t.states,
            t.effects,
            owned,
            &t.options,
        );
        if replaced {
            degraded += 1;
        }
        if silenced {
            silent += 1;
        }
        k += 1;
    }
    TrackNotes { notes, events_degraded: degraded, events_silent: silent }
}

/// The arpeggio of a track: that of the first segment that has one.
pub open spec fn track_arpeggio(segments: Seq<Segment>, patches: Seq<Patch>) -> Option<Seq<i8>>
    decreases segments.len(),
{
    if segments.len() == 0 {
        None
    } else {
        match track_arpeggio(segments.drop_last(), patches) {
            Some(a) => Some(a),
            None => segment_arpeggio(segments.last(), patches),
        }
    }
}

proof fn track_arpeggio_stays(segments: Seq<Segment>, patches: Seq<Patch>, n: int)
    requires
        0 <= n <= segments.len(),
        track_arpeggio(segments.take(n), patches) is Some,
    ensures
        track_arpeggio(segments, patches) == track_arpeggio(segments.take(n), patches),
    decreases segments.len(),
{
    if n == segments.len() {
        assert(segments.take(n) =~= segments);
    } else {
        assert(segments.drop_last().take(n) =~= segments.take(n));
        track_arpeggio_stays(segments.drop_last(), patches, n);
    }
}

/// The arpeggio of a track, if it has one.
pub fn arp_plan_offsets<'a>(plan: &TrackPlan, patches: &'a [Patch]) -> (r: Option<&'a [i8]>)
    requires
        segments_fit(plan.segments@, patches@),
    ensures
        offsets_view(r) == track_arpeggio(plan.segments@, patches@),
        r matches Some(a) ==> a@.len() > 0,
{
    let mut i: usize = 0;
    assert(plan.segments@.take(0) =~= Seq::<Segment>::empty());
    while i < plan.segments.len()
        invariant
            i <= plan.segments@.len(),
            segments_fit(plan.segments@, patches@),
            track_arpeggio(plan.segments@.take(i as int), patches@) is None,
        decreases plan.segments@.len() - i,
    {
        assert(plan.segments@.take(i + 1).drop_last() =~= plan.segments@.take(i as int));
        let found: Option<&'a [i8]> = arpeggio_of(&plan.segments[i], patches);
        if found.is_some() {
            proof {
                track_arpeggio_stays(plan.segments@, patches@, i + 1);
            }
            return found;
        }
        i += 1;
    }
    assert(plan.segments@.take(plan.segments@.len() as int) =~= plan.segments@);
    None
}

/// The target's arpeggiator: it steps through semitone offsets, one per play
/// call, while a note is held.
#[derive(Debug)]
pub struct Arpeggiator {
    pub custom: Vec<i8>,
    pub rate_millihz: u32,
    pub octaves: u8,
    pub legato: bool,
    /// How much of a step sounds, as a single-precision bit pattern.
    pub gate: u32,
}

/// The bit pattern of the single-precision number one.
pub const ONE_BITS: u32 = 0x3F80_0000;

/// An arpeggiator as plain values.
pub struct ArpeggiatorView {
    pub custom: Seq<i8>,
    pub rate_millihz: u32,
    pub octaves: u8,
    pub legato: bool,
    pub gate: u32,
}

impl Arpeggiator {
    /// The arpeggiator as plain values.
    pub open spec fn view(self) -> ArpeggiatorView {
        ArpeggiatorView {
            custom: self.custom@,
            rate_millihz: self.rate_millihz,
            octaves: self.octaves,
            legato: self.legato,
            gate: self.gate,
        }
    }
}

/// The arpeggiator that plays as the chip does: without a gap, within its
/// octave, at the rate of the play calls.
pub open spec fn native_arpeggiator(offsets: Seq<i8>, rate_millihz: u32) -> ArpeggiatorView {
    ArpeggiatorView { custom: offsets, rate_millihz, octaves: 1, legato: true, gate: ONE_BITS }
}

/// Whether the arpeggiator may play a track: no event disagrees with it, and one
/// at least agrees.
pub open spec fn arpeggiator_agrees(verdicts: Seq<Option<bool>>) -> bool {
    !verdicts.contains(Some(false)) && verdicts.contains(Some(true))
}

/// The arpeggiator for a track, if it is wanted, the track has an arpeggio, and
/// the events agree with it as far as that can be told.
pub fn arp_processor_for(
    plan: &TrackPlan,
    patches: &[Patch],
    verdicts: &[Option<bool>],
    rate_millihz: u32,
    enabled: bool,
) -> (r: Option<Arpeggiator>)
    requires
        segments_fit(plan.segments@, patches@),
    ensures
        match track_arpeggio(plan.segments@, patches@) {
            Some(offsets) => match r {
                Some(a) => enabled && arpeggiator_agrees(verdicts@) && a.view()
                    == native_arpeggiator(offsets, rate_millihz),
                None => !(enabled && arpeggiator_agrees(verdicts@)),
            },
            None => r is None,
        },
{
    if !enabled {
        return None;
    }
    let offsets: &[i8] = match arp_plan_offsets(plan, patches) {
        Some(o) => o,
        None => {
            return None;
        },
    };
    let mut verified: bool = false;
    let mut i: usize = 0;
    while i < verdicts.len()
        invariant
            i <= verdicts@.len(),
            verified ==> verdicts@.contains(Some(true)),
            forall|j: int|
                0 <= j < i ==> #[trigger] verdicts@[j] != Some(false) && (verdicts@[j] == Some(true)
                    ==> verified),
        decreases verdicts@.len() - i,
    {
        match verdicts[i] {
            Some(agrees) => {
                if !agrees {
                    assert(verdicts@[i as int] == Some(false));
                    assert(verdicts@.contains(Some(false)));
                    return None;
                }
                assert(verdicts@[i as int] == Some(true));
                verified = true;
            },
            None => {},
        }
        i += 1;
    }
    if verified {
        Some(
            Arpeggiator {
                custom: copy_items(offsets),
                rate_millihz,
                octaves: 1,
                legato: true,
                gate: ONE_BITS,
            },
        )
    } else {
        None
    }
}

} // verus!
