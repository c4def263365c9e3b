//! What the order of tracks and of their notes is, and what shapes them.

use crate::analysis::frame::ProgramFrame;
use crate::analysis::patch::Patch;
use crate::analysis::program::VoiceId;
use super::sorting::{insertion_point, sorted_by, sorting_keeps};
use super::timbre::FilterKind;
use super::tracks::{
    candidate, every_note_is_planned_once, group_shape, key_patch, note_patch, patch_place,
    profile_place, track_plans, SynthNote,
};
use vstd::prelude::*;

verus! {

/// Sorting puts smaller keys first, loses nothing, and leaves alone what stands in order
/// already, so that items of one key keep their order.
pub proof fn sorting_puts_smaller_keys_first<T>(s: Seq<T>, key: spec_fn(T) -> int)
    ensures
        sorted_by(s, key).len() == s.len(),
        sorted_by(s, key).to_multiset() == s.to_multiset(),
        forall|i: int, j: int|
            0 <= i <= j < s.len() ==> key(#[trigger] sorted_by(s, key)[i]) <= key(
                #[trigger] sorted_by(s, key)[j],
            ),
        (forall|i: int, j: int|
            0 <= i <= j < s.len() ==> key(#[trigger] s[i]) <= key(#[trigger] s[j])) ==> sorted_by(
            s,
            key,
        ) == s,
    decreases s.len(),
{
    sorting_keeps(s, key);
    if s.len() > 0 && forall|i: int, j: int|
        0 <= i <= j < s.len() ==> key(#[trigger] s[i]) <= key(#[trigger] s[j]) {
        let rest = s.drop_last();
        sorting_puts_smaller_keys_first(rest, key);
        assert forall|i: int, j: int| 0 <= i <= j < rest.len() implies key(#[trigger] rest[i])
            <= key(#[trigger] rest[j]) by {
            assert(key(s[i]) <= key(s[j]));
        }
        assert(sorted_by(rest, key) == rest);
        let n = rest.len() as int;
        if n > 0 {
            assert(key(s[n - 1]) <= key(s[n]));
        }
        insertion_point(rest, s.last(), key, n);
        assert(rest.insert(n, s.last()) =~= s);
    }
}

/// The notes of a track stand in the order in which they start, and the tracks in the order
/// in which their first notes start; their instruments are numbered from one.
pub proof fn tracks_run_in_time(
    notes: Seq<SynthNote>,
    patches: Seq<Patch>,
    states: Seq<ProgramFrame>,
    frame_count: u32,
    p: int,
    q: int,
    t: int,
    u: int,
)
    requires
        notes.len() < u32::MAX,
        notes.len() <= usize::MAX,
        0 <= p <= q < track_plans(notes, patches, states, frame_count).len(),
        0 <= t <= u < track_plans(notes, patches, states, frame_count)[p].timeline.len(),
    ensures
        ({
            let plans = track_plans(notes, patches, states, frame_count);
            let line = plans[p].timeline;
            &&& plans[p].instrument_id == p + 1
            &&& notes[line[t].1 as int].event.start_frame
                <= notes[line[u].1 as int].event.start_frame
            &&& plans[q].timeline.len() > 0
            &&& notes[line[0].1 as int].event.start_frame
                <= notes[plans[q].timeline[0].1 as int].event.start_frame
            &&& notes[line[t].1 as int].event.voice == plans[p].voice
            &&& p < q && 0 <= u < plans[q].timeline.len() ==> line[t].1 != plans[q].timeline[u].1
        }),
{
    every_note_is_planned_once(notes, patches, states, frame_count);
    let plans = track_plans(notes, patches, states, frame_count);
    let line = plans[p].timeline;
    let a = line[t];
    let b = line[u];
    let c = line[0];
    let d = plans[q].timeline[0];
    let _ = plans[q];
}

/// A note keeps the sound that it was clustered into; only a note without one may take that
/// of another. A sound is found under its own number.
pub proof fn clustered_notes_keep_their_sound(
    notes: Seq<SynthNote>,
    patches: Seq<Patch>,
    voice: VoiceId,
    m: Seq<usize>,
    i: usize,
    id: u16,
)
    ensures
        notes[i as int].patch_id matches Some(k) ==> note_patch(notes, patches, voice, m, i)
            == Some(k),
        notes[i as int].patch_id is None && notes[i as int].characteristics is None ==> note_patch(
            notes,
            patches,
            voice,
            m,
            i,
        ) is None,
        patch_place(patches, id) matches Some(p) ==> p < patches.len() && patches[p as int].id == id,
        id < patches.len() && patches[id as int].id == id ==> patch_place(patches, id) is Some,
        notes[i as int].patch_id is None ==> candidate(notes, patches, voice, i) is None,
        candidate(notes, patches, voice, i) matches Some(c) ==> c.0
            == notes[i as int].event.start_frame && notes[i as int].patch_id == Some(c.1)
            && !(c.3.arpeggio_loop matches Some(a) && a@.len() > 0),
{
}

/// The notes of a track without a sound ring or are synced if the chip did so in a frame in
/// which one of them sounds, and are filtered as their first note was when it started.
pub proof fn soundless_tracks_follow_the_chip(
    notes: Seq<SynthNote>,
    patches: Seq<Patch>,
    states: Seq<ProgramFrame>,
    voice: VoiceId,
    key: (Option<u16>, Option<Seq<u8>>),
    events: Seq<usize>,
)
    requires
        profile_place(patches, key_patch(patches, key), voice) is None,
    ensures
        ({
            let s = group_shape(notes, patches, states, voice, key, events);
            let v = voice.0 - 1;
            &&& s.has_ring <==> exists|e: int, f: int|
                #![trigger events[e], states[f]]
                0 <= e < events.len() && notes[events[e] as int].event.frames_in(states.len()).0
                    <= f < notes[events[e] as int].event.frames_in(states.len()).1
                    && states[f].voices@[v].ring_mod
            &&& s.has_sync <==> exists|e: int, f: int|
                #![trigger events[e], states[f]]
                0 <= e < events.len() && notes[events[e] as int].event.frames_in(states.len()).0
                    <= f < notes[events[e] as int].event.frames_in(states.len()).1
                    && states[f].voices@[v].sync
            &&& events.len() == 0 ==> s.filter_kind is None && !s.has_ring && !s.has_sync
            &&& events.len() > 0 ==> {
                let f = notes[events[0] as int].event.start_frame as int;
                &&& s.filter_kind is Some <==> f < states.len()
                    && states[f].filter.routing@[v]
                &&& f < states.len() && states[f].filter.routing@[v] ==> (s.filter_kind
                    == Some(FilterKind::Lowpass) <==> super::timbre::kind_of_mode(
                    states[f].filter.mode,
                ) is Lowpass)
            }
        }),
{
}

} // verus!
