//! What is written for the events of a track.

use super::{
    arpeggiator_agrees, degraded_count, entry_degraded, entry_event, entry_is_held, entry_notes,
    event_notes, segment_arpeggio, silenced_count, track_arpeggio, track_notes, EmissionOptions,
    EventInput, TrackInput,
};
use super::super::articulation::note_level;
use super::super::notes::writing::{
    baked_notes_sound_every_frame, covers, every_note_is_written, heard_between,
    heard_notes_are_kept, silent_notes_are_left_out,
};
use super::super::notes::{gated_span, plain_note, Note};
use super::super::tracks::Segment;
use crate::analysis::frame::{EffectSpan, NoteEvent, ProgramFrame};
use crate::analysis::patch::Patch;
use vstd::prelude::*;

verus! {

/// An event that the target's arpeggiator plays is written as one note at its own pitch,
/// over the frames that it is gated.
pub proof fn arpeggiated_events_are_held(
    n: int,
    event: NoteEvent,
    offsets: Seq<i8>,
    percussion: bool,
    input: EventInput,
    states: Seq<ProgramFrame>,
    effects: Seq<EffectSpan>,
    owned_until: Option<u32>,
    o: EmissionOptions,
)
    requires
        o.arpeggiator,
    ensures
        ({
            let notes = event_notes(
                n,
                event,
                Some(offsets),
                percussion,
                input,
                states,
                effects,
                owned_until,
                o,
            );
            &&& notes.len() == 1
            &&& notes[0] == plain_note(n as u32, event, o.ticks_per_frame, o.frame_count, states)
            &&& notes[0].pitch == event.midi
            &&& notes[0].velocity == note_level(event, states)
        }),
{
}

/// Where silence is not asked for, every event without an arpeggio is written, whatever was
/// found of it.
pub proof fn events_are_written_where_silence_does_not_count(
    n: int,
    event: NoteEvent,
    percussion: bool,
    input: EventInput,
    states: Seq<ProgramFrame>,
    effects: Seq<EffectSpan>,
    owned_until: Option<u32>,
    o: EmissionOptions,
)
    requires
        !o.forward_gate,
    ensures
        event_notes(n, event, None, percussion, input, states, effects, owned_until, o).len() >= 1,
{
    every_note_is_written(
        n,
        event,
        states,
        effects,
        input.measures,
        o.frame_count,
        o.ticks_per_frame,
        percussion,
    );
}

/// Where silence counts, every note that is written for an event sounds on the chip
/// somewhere, unless the arpeggiator plays it.
pub proof fn written_notes_are_heard(
    n: int,
    event: NoteEvent,
    arpeggio: Option<Seq<i8>>,
    percussion: bool,
    input: EventInput,
    states: Seq<ProgramFrame>,
    effects: Seq<EffectSpan>,
    owned_until: Option<u32>,
    o: EmissionOptions,
    k: int,
)
    requires
        event.voice.valid(),
        o.ticks_per_frame > 0,
        o.forward_gate,
        arpeggio is None || !o.arpeggiator,
        0 <= k < event_notes(
            n,
            event,
            arpeggio,
            percussion,
            input,
            states,
            effects,
            owned_until,
            o,
        ).len(),
    ensures
        ({
            let notes = event_notes(
                n,
                event,
                arpeggio,
                percussion,
                input,
                states,
                effects,
                owned_until,
                o,
            );
            &&& notes[k].id == (n + k) as u32
            &&& heard_between(
                states,
                event.voice.0 - 1,
                o.ticks_per_frame as int,
                notes[k].start as int,
                notes[k].duration as int,
            )
        }),
{
    let settled = super::settled_notes(
        n,
        event,
        arpeggio,
        percussion,
        input,
        states,
        effects,
        owned_until,
        o,
    );
    let i = silent_notes_are_left_out(
        n,
        settled,
        states,
        event.voice.0 - 1,
        o.ticks_per_frame,
        k,
    );
}

/// An event whose proposal was refuted plays what the chip played: a frame at which its
/// voice is gated sounds the pitch that the chip had there.
pub proof fn refuted_events_play_the_chip(
    n: int,
    event: NoteEvent,
    percussion: bool,
    input: EventInput,
    states: Seq<ProgramFrame>,
    effects: Seq<EffectSpan>,
    owned_until: Option<u32>,
    o: EmissionOptions,
    j: int,
) -> (k: int)
    requires
        event.voice.valid(),
        o.ticks_per_frame > 0,
        o.forward_gate,
        input.verdict == Some(false),
        0 <= j < input.pitches@.len(),
        input.pitches@[j] is Some,
        0 <= gated_span(event, states, o.frame_count).0,
        gated_span(event, states, o.frame_count).0 + input.pitches@.len() <= u32::MAX,
        (gated_span(event, states, o.frame_count).0 + input.pitches@.len()) * o.ticks_per_frame
            <= u32::MAX,
        gated_span(event, states, o.frame_count).0 + j < states.len(),
        states[gated_span(event, states, o.frame_count).0 + j].voices@[event.voice.0 - 1].gate,
    ensures
        ({
            let notes = event_notes(
                n,
                event,
                None,
                percussion,
                input,
                states,
                effects,
                owned_until,
                o,
            );
            &&& 0 <= k < notes.len()
            &&& covers(
                notes[k],
                gated_span(event, states, o.frame_count).0 + j,
                o.ticks_per_frame,
                input.pitches@[j]->0 as int,
            )
        }),
{
    let first = gated_span(event, states, o.frame_count).0;
    let f = first + j;
    let t = o.ticks_per_frame as int;
    let i = baked_notes_sound_every_frame(
        n,
        event,
        first as u32,
        input.pitches@,
        o.ticks_per_frame,
        o.frame_count,
        states,
        j,
        j,
    );
    let settled = super::settled_notes(
        n,
        event,
        None,
        percussion,
        input,
        states,
        effects,
        owned_until,
        o,
    );
    let note = settled[i];
    let start = note.start as int;
    let duration = note.duration as int;
    let (a, b) = choose|a: int, b: int|
        note.start == #[trigger] (a * o.ticks_per_frame) && note.duration == #[trigger] (b
            * o.ticks_per_frame);
    frame_lies_in(a, b, f, t);
    assert(heard_between(states, event.voice.0 - 1, t, start, duration)) by {
        assert(states[f].voices@[event.voice.0 - 1].gate);
    }
    heard_notes_are_kept(n, settled, states, event.voice.0 - 1, o.ticks_per_frame, i)
}

proof fn frame_lies_in(a: int, b: int, f: int, t: int)
    requires
        t > 0,
        a * t <= f * t,
        (f + 1) * t <= a * t + b * t,
    ensures
        (a * t) / t == a,
        (b * t) / t == b,
        a <= f < a + b,
{
    assert((a * t) / t == a && (b * t) / t == b && a <= f && f < a + b) by (nonlinear_arith)
        requires
            t > 0,
            a * t <= f * t,
            (f + 1) * t <= a * t + b * t,
    ;
}

/// The notes of a track come in the order of its timeline: those of the first entries stand
/// in front of those of the next.
pub proof fn entries_follow_each_other(t: TrackInput, k: int, n: int)
    requires
        0 <= k <= n,
    ensures
        track_notes(t, 0).len() == 0,
        track_notes(t, k).is_prefix_of(track_notes(t, n)),
        k > 0 ==> track_notes(t, k) == track_notes(t, k - 1) + entry_notes(
            t,
            track_notes(t, k - 1).len() as int,
            k - 1,
        ),
    decreases n,
{
    if k < n {
        entries_follow_each_other(t, k, n - 1);
        let a = track_notes(t, k);
        let b = track_notes(t, n - 1);
        let c = track_notes(t, n);
        assert(c.subrange(0, a.len() as int) =~= b.subrange(0, a.len() as int));
    } else {
        let a = track_notes(t, k);
        assert(a.subrange(0, a.len() as int) =~= a);
    }
}

/// An entry counts as replaced just where its proposal was refuted, silence counts, and the
/// arpeggiator does not play it; every such entry counts once.
pub proof fn replaced_entries_are_counted(t: TrackInput, k: int)
    requires
        0 <= k,
    ensures
        degraded_count(t, k) <= k,
        silenced_count(t, k) <= k,
        !t.options.forward_gate ==> degraded_count(t, k) == 0 && silenced_count(t, k) == 0,
        degraded_count(t, k + 1) - degraded_count(t, k) == (if t.options.forward_gate
            && t.inputs@[k].verdict == Some(false) && !(t.options.arpeggiator && segment_arpeggio(
            t.plan.segments@[t.plan.timeline@[k].0 as int],
            t.patches@,
        ) is Some) {
            1int
        } else {
            0
        }),
        silenced_count(t, k) <= silenced_count(t, k + 1) <= silenced_count(t, k) + 1,
    decreases k,
{
    if k > 0 {
        replaced_entries_are_counted(t, k - 1);
    }
}

/// The arpeggio of a track is that of the first of its segments that has one.
pub proof fn the_first_arpeggio_is_the_track_s(segments: Seq<Segment>, patches: Seq<Patch>, i: int)
    requires
        0 <= i < segments.len(),
        forall|j: int|
            0 <= j < i ==> segment_arpeggio(#[trigger] segments[j], patches) is None,
    ensures
        segment_arpeggio(segments[i], patches) is Some ==> track_arpeggio(segments, patches)
            == segment_arpeggio(segments[i], patches),
        i == segments.len() - 1 && segment_arpeggio(segments[i], patches) is None ==> track_arpeggio(
            segments,
            patches,
        ) is None,
        segments[i].patch is None || segments[i].profile is None ==> segment_arpeggio(
            segments[i],
            patches,
        ) is None,
    decreases segments.len(),
{
    let t = segments.drop_last();
    if i < t.len() {
        assert(t[i] == segments[i]);
        assert forall|j: int| 0 <= j < i implies segment_arpeggio(
            #[trigger] t[j],
            patches,
        ) is None by {
            assert(t[j] == segments[j]);
        }
        the_first_arpeggio_is_the_track_s(t, patches, i);
    } else {
        none_before(t, patches);
    }
}

proof fn none_before(segments: Seq<Segment>, patches: Seq<Patch>)
    requires
        forall|j: int|
            0 <= j < segments.len() ==> segment_arpeggio(#[trigger] segments[j], patches) is None,
    ensures
        track_arpeggio(segments, patches) is None,
    decreases segments.len(),
{
    if segments.len() > 0 {
        let t = segments.drop_last();
        assert forall|j: int| 0 <= j < t.len() implies segment_arpeggio(
            #[trigger] t[j],
            patches,
        ) is None by {
            assert(t[j] == segments[j]);
        }
        assert(segment_arpeggio(segments[segments.len() - 1], patches) is None);
        none_before(t, patches);
    }
}

/// Events agree with an arpeggiator just where some of them were told to and none not to.
pub proof fn verdicts_decide_together(verdicts: Seq<Option<bool>>)
    ensures
        arpeggiator_agrees(verdicts) <==> (exists|k: int|
            0 <= k < verdicts.len() && #[trigger] verdicts[k] == Some(true)) && forall|k: int|
            0 <= k < verdicts.len() ==> #[trigger] verdicts[k] != Some(false),
{
    if arpeggiator_agrees(verdicts) {
        let k = choose|k: int| 0 <= k < verdicts.len() && verdicts[k] == Some(true);
        assert(verdicts[k] == Some(true));
    }
}

} // verus!
