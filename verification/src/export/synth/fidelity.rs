//! What of a written note is compared with the trace.

use super::articulation::{authored_end, authored_note_end_frame};
use super::notes::Note;
use super::ownership::timeline_fits;
use super::tracks::{SynthNote, TrackPlan};
use vstd::prelude::*;

verus! {

/// Where a written note is compared with the trace.
#[derive(Debug, Clone, Copy, PartialEq, Eq, Structural)]
pub struct NoteSpan {
    pub start_frame: u32,
    pub frames: u32,
    pub pitch: u32,
}

/// The frames of a written note: from its first tick on, and one at least.
pub open spec fn span_of(note: Note, tpr: u32) -> NoteSpan {
    let scale = if tpr < 1 {
        1u32
    } else {
        tpr
    };
    let frames = note.duration / scale;
    NoteSpan {
        start_frame: note.start / scale,
        frames: if frames < 1 {
            1
        } else {
            frames
        },
        pitch: note.pitch,
    }
}

/// Finds the frames of a written note.
pub fn note_span(note: &Note, tpr: u32) -> (r: NoteSpan)
    ensures
        r == span_of(*note, tpr),
{
    let scale: u32 = if tpr < 1 {
        1
    } else {
        tpr
    };
    let frames: u32 = note.duration / scale;
    NoteSpan {
        start_frame: note.start / scale,
        frames: if frames < 1 {
            1
        } else {
            frames
        },
        pitch: note.pitch,
    }
}

/// Whether an entry of a timeline bends the pitch of its track at a frame.
pub open spec fn entry_bends(
    timeline: Seq<(usize, usize)>,
    notes: Seq<SynthNote>,
    late: Seq<bool>,
    frame_count: u32,
    frame: u32,
    t: int,
) -> bool {
    let event = notes[timeline[t].1 as int].event;
    late[t] && event.start_frame <= frame < authored_end(event, frame_count)
}

/// Tells whether a note that starts at a frame is bent with the pitch of its track:
/// some note whose vibrato sets in late sounds there.
pub fn note_is_bent(
    plan: &TrackPlan,
    notes: &[SynthNote],
    late: &[bool],
    frame_count: u32,
    frame: u32,
) -> (r: bool)
    requires
        timeline_fits(plan.timeline@, notes@),
        late@.len() == plan.timeline@.len(),
    ensures
        r == exists|t: int|
            0 <= t < plan.timeline@.len() && #[trigger] entry_bends(
                plan.timeline@,
                notes@,
                late@,
                frame_count,
                frame,
                t,
            ),
{
    let mut t: usize = 0;
    while t < plan.timeline.len()
        invariant
            t <= plan.timeline@.len() == late@.len(),
            timeline_fits(plan.timeline@, notes@),
            forall|s: int|
                0 <= s < t ==> !#[trigger] entry_bends(
                    plan.timeline@,
                    notes@,
                    late@,
                    frame_count,
                    frame,
                    s,
                ),
        decreases plan.timeline@.len() - t,
    {
        assert(plan.timeline@[t as int].1 < notes@.len());
        let event = &notes[plan.timeline[t].1].event;
        if late[t] && event.start_frame <= frame && frame < authored_note_end_frame(
            event,
            frame_count,
        ) {
            assert(entry_bends(
                plan.timeline@,
                notes@,
                late@,
                frame_count,
                frame,
                t as int,
            ));
            return true;
        }
        t += 1;
    }
    false
}

/// A written note is compared over the frames that its ticks fill: they begin no later than
/// it does, and end no later unless it fills none.
pub proof fn spans_lie_within_their_note(note: Note, tpr: u32)
    requires
        tpr > 0,
    ensures
        ({
            let s = span_of(note, tpr);
            &&& s.pitch == note.pitch
            &&& s.start_frame * tpr <= note.start < (s.start_frame + 1) * tpr
            &&& note.duration >= tpr ==> s.frames * tpr <= note.duration < (s.frames + 1) * tpr
            &&& note.duration < tpr ==> s.frames == 1
        }),
{
    let start = note.start as int;
    let duration = note.duration as int;
    let t = tpr as int;
    vstd::arithmetic::div_mod::lemma_fundamental_div_mod(start, t);
    vstd::arithmetic::div_mod::lemma_fundamental_div_mod(duration, t);
    let a = start / t;
    let b = duration / t;
    assert(t * a == a * t && (a + 1) * t == a * t + t && t * b == b * t && (b + 1) * t == b * t + t)
        by (nonlinear_arith);
    assert(0 <= start % t < t && 0 <= duration % t < t) by (nonlinear_arith)
        requires
            t > 0,
    ;
    if duration >= t {
        assert(b >= 1) by (nonlinear_arith)
            requires
                duration == t * b + duration % t,
                duration % t < t,
                duration >= t,
                t > 0,
        ;
    } else {
        assert(b == 0) by (nonlinear_arith)
            requires
                duration == t * b + duration % t,
                0 <= duration % t,
                0 <= duration < t,
        ;
    }
}

} // verus!
