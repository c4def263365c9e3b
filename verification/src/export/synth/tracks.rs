//! Planning the tracks of a song: which notes share an instrument.

use crate::analysis::frame::{NoteEvent, ProgramFrame};
use crate::analysis::patch::{first_profile, NoteCharacteristics, Patch, PatchVoiceProfile};
use crate::analysis::program::VoiceId;
use super::emission::segments_fit;
use super::grouping::{
    group_by_key, group_places, groups_partition, places, places_are_exact, plain_keys, GroupKey,
};
use super::ownership::{plans_fit, timeline_fits};
use super::pitch::{drum_body, drum_drop_dest};
use super::sorting::{
    ascends, insert_by, insertion_point, same_items, sorted_by, sorting_keeps,
};
use super::timbre::{
    adopt_patch, adoption, copy_items, copy_optional, filter_kind, kind_of_mode, optional_view,
    same_bytes, shape, shape_of, FilterKind, MergeShape, ShapeView,
};
use vstd::prelude::*;

verus! {

/// A note with what is known of its sound.
#[derive(Debug)]
pub struct SynthNote {
    pub event: NoteEvent,
    /// The sound that the note was clustered into.
    pub patch_id: Option<u16>,
    pub characteristics: Option<NoteCharacteristics>,
    /// Whether a vibrato was measured on the note.
    pub has_vibrato: bool,
}

/// One-shot waveform programs fit the sixteen steps of the target's oscillator.
pub open spec fn programs_fit(notes: Seq<SynthNote>) -> bool {
    forall|i: int|
        0 <= i < notes.len() ==> (note_program(#[trigger] notes[i]) matches Some(p) ==> p.len()
            <= 16)
}

/// The one-shot waveform program of a note.
pub open spec fn note_program(note: SynthNote) -> Option<Seq<u8>> {
    match note.characteristics {
        Some(c) => optional_view(c.waveform_program),
        None => None,
    }
}

/// The test for the drum drops of a voice, or for its other notes.
pub open spec fn plays_on(
    notes: Seq<SynthNote>,
    states: Seq<ProgramFrame>,
    frame_count: u32,
    voice: VoiceId,
    drums: bool,
) -> spec_fn(int) -> bool {
    |i: int|
        notes[i].event.voice == voice && (drum_body(
            notes[i].event,
            states,
            notes[i].has_vibrato,
            frame_count,
        ) is Some) == drums
}

/// The drum drops of a voice, or its other notes.
pub open spec fn voice_notes(
    notes: Seq<SynthNote>,
    states: Seq<ProgramFrame>,
    frame_count: u32,
    voice: VoiceId,
    drums: bool,
) -> Seq<usize> {
    places(notes.len() as int, plays_on(notes, states, frame_count, voice, drums))
}

/// Splits the notes of a voice into melodic ones and drum drops.
fn split_voice(
    notes: &[SynthNote],
    states: &[ProgramFrame],
    frame_count: u32,
    voice: VoiceId,
) -> (r: (Vec<usize>, Vec<usize>))
    requires
        voice.valid(),
    ensures
        r.0@ == voice_notes(notes@, states@, frame_count, voice, false),
        r.1@ == voice_notes(notes@, states@, frame_count, voice, true),
{
    let mut melodic: Vec<usize> = Vec::new();
    let mut drums: Vec<usize> = Vec::new();
    let ghost tonal = plays_on(notes@, states@, frame_count, voice, false);
    let ghost drum = plays_on(notes@, states@, frame_count, voice, true);
    let mut i: usize = 0;
    while i < notes.len()
        invariant
            i <= notes@.len(),
            voice.valid(),
            tonal == plays_on(notes@, states@, frame_count, voice, false),
            drum == plays_on(notes@, states@, frame_count, voice, true),
            melodic@ == places(i as int, tonal),
            drums@ == places(i as int, drum),
        decreases notes@.len() - i,
    {
        if notes[i].event.voice == voice {
            if drum_drop_dest(&notes[i].event, states, notes[i].has_vibrato, frame_count).is_some() {
                assert(drum(i as int) && !tonal(i as int));
                drums.push(i);
            } else {
                assert(!drum(i as int) && tonal(i as int));
                melodic.push(i);
            }
        } else {
            assert(!drum(i as int) && !tonal(i as int));
        }
        i += 1;
    }
    (melodic, drums)
}

/// The place of a sound: sounds are numbered in order from zero.
pub open spec fn patch_place(patches: Seq<Patch>, id: u16) -> Option<usize> {
    if id < patches.len() && patches[id as int].id == id {
        Some(id as usize)
    } else {
        None
    }
}

/// The place of the profile that a sound has on a voice.
pub open spec fn profile_place(patches: Seq<Patch>, patch: Option<usize>, voice: VoiceId) -> Option<
    usize,
> {
    match patch {
        Some(p) => match patches[p as int].profile_index(voice) {
            Some(i) => Some(i as usize),
            None => None,
        },
        None => None,
    }
}

fn find_patch(patches: &[Patch], id: Option<u16>) -> (r: Option<usize>)
    ensures
        r == (match id {
            Some(k) => patch_place(patches@, k),
            None => None,
        }),
        r matches Some(p) ==> p < patches@.len(),
{
    match id {
        Some(k) => if (k as usize) < patches.len() && patches[k as usize].id == k {
            Some(k as usize)
        } else {
            None
        },
        None => None,
    }
}

fn find_profile(patches: &[Patch], patch: Option<usize>, voice: VoiceId) -> (r: Option<usize>)
    requires
        patch matches Some(p) ==> p < patches@.len(),
    ensures
        r == profile_place(patches@, patch, voice),
        r matches Some(i) ==> patch is Some && i < patches@[patch->0 as int].voices@.len(),
{
    match patch {
        Some(p) => patches[p].profile_place(voice),
        None => None,
    }
}

/// Whether a profile plays an arpeggio.
pub open spec fn is_arpeggio(profile: PatchVoiceProfile) -> bool {
    profile.arpeggio_loop matches Some(a) && a@.len() > 0
}

/// An assigned note as one whose sound others may adopt. A flat note on an
/// arpeggiated sound would turn into a chord, so those sounds are left out.
pub open spec fn candidate<'a>(
    notes: Seq<SynthNote>,
    patches: Seq<Patch>,
    voice: VoiceId,
    i: usize,
) -> Option<(u32, u16, &'a Patch, &'a PatchVoiceProfile)> {
    let note = notes[i as int];
    match note.patch_id {
        Some(k) => {
            let patch = patch_place(patches, k);
            match profile_place(patches, patch, voice) {
                Some(q) => {
                    let profile = patches[patch->0 as int].voices@[q as int];
                    if is_arpeggio(profile) {
                        None
                    } else {
                        Some(
                            (note.event.start_frame, k, &patches[patch->0 as int], &profile),
                        )
                    }
                },
                None => None,
            }
        },
        None => None,
    }
}

/// The notes of a list whose sounds others may adopt.
pub open spec fn candidates<'a>(
    notes: Seq<SynthNote>,
    patches: Seq<Patch>,
    voice: VoiceId,
    m: Seq<usize>,
) -> Seq<(u32, u16, &'a Patch, &'a PatchVoiceProfile)>
    decreases m.len(),
{
    if m.len() == 0 {
        Seq::empty()
    } else {
        match candidate(notes, patches, voice, m.last()) {
            Some(c) => candidates(notes, patches, voice, m.drop_last()).push(c),
            None => candidates(notes, patches, voice, m.drop_last()),
        }
    }
}

fn collect_candidates<'a>(
    notes: &[SynthNote],
    patches: &'a [Patch],
    voice: VoiceId,
    m: &[usize],
) -> (r: Vec<(u32, u16, &'a Patch, &'a PatchVoiceProfile)>)
    requires
        forall|i: int| 0 <= i < m@.len() ==> #[trigger] m@[i] < notes@.len(),
    ensures
        r@ == candidates(notes@, patches@, voice, m@),
{
    let mut out: Vec<(u32, u16, &'a Patch, &'a PatchVoiceProfile)> = Vec::new();
    let mut i: usize = 0;
    assert(m@.take(0) =~= Seq::<usize>::empty());
    while i < m.len()
        invariant
            i <= m@.len(),
            forall|i: int| 0 <= i < m@.len() ==> #[trigger] m@[i] < notes@.len(),
            out@ == candidates(notes@, patches@, voice, m@.take(i as int)),
        decreases m@.len() - i,
    {
        assert(m@.take(i + 1).drop_last() =~= m@.take(i as int));
        let note: &SynthNote = &notes[m[i]];
        if let Some(k) = note.patch_id {
            let patch: Option<usize> = find_patch(patches, Some(k));
            if let Some(p) = patch {
                if let Some(q) = find_profile(patches, patch, voice) {
                    let profile: &'a PatchVoiceProfile = &patches[p].voices[q];
                    let arpeggio: bool = match &profile.arpeggio_loop {
                        Some(a) => a.len() > 0,
                        None => false,
                    };
                    if !arpeggio {
                        out.push((note.event.start_frame, k, &patches[p], profile));
                    }
                }
            }
        }
        i += 1;
    }
    assert(m@.take(m@.len() as int) =~= m@);
    out
}

/// What puts melodic notes of a voice together: their sound, own or adopted,
/// and the one-shot program that they play on it.
#[derive(Debug)]
pub struct SoundKey {
    pub patch: Option<u16>,
    pub program: Option<Vec<u8>>,
}

impl GroupKey for SoundKey {
    type Key = (Option<u16>, Option<Seq<u8>>);

    open spec fn key(&self) -> (Option<u16>, Option<Seq<u8>>) {
        (self.patch, optional_view(self.program))
    }

    fn same_key(&self, other: &SoundKey) -> (r: bool) {
        self.patch == other.patch && same_bytes(&self.program, &other.program)
    }
}

/// The sound of a note: its own, or else the one that it adopts.
pub open spec fn note_patch(
    notes: Seq<SynthNote>,
    patches: Seq<Patch>,
    voice: VoiceId,
    m: Seq<usize>,
    i: usize,
) -> Option<u16> {
    let note = notes[i as int];
    match note.patch_id {
        Some(k) => Some(k),
        None => match note.characteristics {
            Some(c) => adoption(note.event.start_frame, c, candidates(notes, patches, voice, m)),
            None => None,
        },
    }
}

/// What a melodic note is grouped by. A note without a sound has no program.
pub open spec fn sound_key(
    notes: Seq<SynthNote>,
    patches: Seq<Patch>,
    voice: VoiceId,
    m: Seq<usize>,
    i: usize,
) -> (Option<u16>, Option<Seq<u8>>) {
    let patch = note_patch(notes, patches, voice, m, i);
    (
        patch,
        if patch is Some {
            note_program(notes[i as int])
        } else {
            None
        },
    )
}

/// What the melodic notes of a voice are grouped by.
pub open spec fn sound_keys(
    notes: Seq<SynthNote>,
    patches: Seq<Patch>,
    voice: VoiceId,
    m: Seq<usize>,
) -> Seq<(Option<u16>, Option<Seq<u8>>)> {
    Seq::new(m.len(), |j: int| sound_key(notes, patches, voice, m, m[j]))
}

fn collect_keys(notes: &[SynthNote], patches: &[Patch], voice: VoiceId, m: &[usize]) -> (r: Vec<
    SoundKey,
>)
    requires
        forall|i: int| 0 <= i < m@.len() ==> #[trigger] m@[i] < notes@.len(),
    ensures
        plain_keys(r@) == sound_keys(notes@, patches@, voice, m@),
{
    let assigned: Vec<(u32, u16, &Patch, &PatchVoiceProfile)> = collect_candidates(
        notes,
        patches,
        voice,
        m,
    );
    let mut keys: Vec<SoundKey> = Vec::new();
    let mut i: usize = 0;
    while i < m.len()
        invariant
            i <= m@.len(),
            keys@.len() == i,
            forall|i: int| 0 <= i < m@.len() ==> #[trigger] m@[i] < notes@.len(),
            assigned@ == candidates(notes@, patches@, voice, m@),
            forall|j: int|
                0 <= j < i ==> (#[trigger] keys@[j]).key() == sound_key(
                    notes@,
                    patches@,
                    voice,
                    m@,
                    m@[j],
                ),
        decreases m@.len() - i,
    {
        let note: &SynthNote = &notes[m[i]];
        let patch: Option<u16> = match note.patch_id {
            Some(k) => Some(k),
            None => match &note.characteristics {
                Some(c) => adopt_patch(&note.event, Some(c), assigned.as_slice()),
                None => None,
            },
        };
        let program: Option<Vec<u8>> = if patch.is_some() {
            match &note.characteristics {
                Some(c) => copy_optional(&c.waveform_program),
                None => None,
            }
        } else {
            None
        };
        let key: SoundKey = SoundKey { patch, program };
        assert(key.key() == sound_key(notes@, patches@, voice, m@, m@[i as int]));
        keys.push(key);
        i += 1;
    }
    assert(plain_keys(keys@) =~= sound_keys(notes@, patches@, voice, m@));
    keys
}

/// The notes of one sound on one voice, before tracks are put together.
#[derive(Debug)]
pub struct Draft {
    pub voice: VoiceId,
    pub patch: Option<usize>,
    pub profile: Option<usize>,
    pub shape: MergeShape,
    /// Whether the notes may share a track with others of the same shape.
    pub mergeable: bool,
    pub drum_drop: bool,
    pub waveform_program: Option<Vec<u8>>,
    pub events: Vec<usize>,
}

/// A draft as plain values.
pub struct DraftView {
    pub voice: VoiceId,
    pub patch: Option<usize>,
    pub profile: Option<usize>,
    pub shape: ShapeView,
    pub mergeable: bool,
    pub drum_drop: bool,
    pub waveform_program: Option<Seq<u8>>,
    pub events: Seq<usize>,
}

impl Draft {
    /// The draft as plain values.
    pub open spec fn view(self) -> DraftView {
        DraftView {
            voice: self.voice,
            patch: self.patch,
            profile: self.profile,
            shape: self.shape.view(),
            mergeable: self.mergeable,
            drum_drop: self.drum_drop,
            waveform_program: optional_view(self.waveform_program),
            events: self.events@,
        }
    }
}

/// Whether a note sounds at a frame.
pub open spec fn sounds_at(event: NoteEvent, len: nat, f: int) -> bool {
    event.frames_in(len).0 <= f < event.frames_in(len).1
}

/// Whether some note of a list is ring modulated at some frame.
pub open spec fn some_ring(
    notes: Seq<SynthNote>,
    states: Seq<ProgramFrame>,
    voice: VoiceId,
    events: Seq<usize>,
) -> bool {
    exists|e: int, f: int|
        0 <= e < events.len() && sounds_at(notes[#[trigger] events[e] as int].event, states.len(), f)
            && (#[trigger] states[f]).voices@[voice.0 - 1].ring_mod
}

/// Whether some note of a list is hard synced at some frame.
pub open spec fn some_sync(
    notes: Seq<SynthNote>,
    states: Seq<ProgramFrame>,
    voice: VoiceId,
    events: Seq<usize>,
) -> bool {
    exists|e: int, f: int|
        0 <= e < events.len() && sounds_at(notes[#[trigger] events[e] as int].event, states.len(), f)
            && (#[trigger] states[f]).voices@[voice.0 - 1].sync
}

/// The filter that the first note of a list begins with.
pub open spec fn opening_filter(
    notes: Seq<SynthNote>,
    states: Seq<ProgramFrame>,
    voice: VoiceId,
    events: Seq<usize>,
) -> Option<FilterKind> {
    if events.len() > 0 {
        let f = notes[events[0] as int].event.start_frame as int;
        if f < states.len() && states[f].filter.routing@[voice.0 - 1] {
            Some(kind_of_mode(states[f].filter.mode))
        } else {
            None
        }
    } else {
        None
    }
}

/// The shape of a group. Without a profile the chip itself tells of filter, ring
/// modulation and sync.
pub open spec fn group_shape(
    notes: Seq<SynthNote>,
    patches: Seq<Patch>,
    states: Seq<ProgramFrame>,
    voice: VoiceId,
    key: (Option<u16>, Option<Seq<u8>>),
    events: Seq<usize>,
) -> ShapeView {
    let patch = key_patch(patches, key);
    let profile = profile_place(patches, patch, voice);
    match profile {
        Some(q) => {
            let p = patches[patch->0 as int];
            shape(Some(p), Some(p.voices@[q as int]), key.1)
        },
        None => ShapeView {
            has_ring: some_ring(notes, states, voice, events),
            has_sync: some_sync(notes, states, voice, events),
            filter_kind: opening_filter(notes, states, voice, events),
            ..shape(None, None, None)
        },
    }
}

/// The place of the sound that a group is grouped by.
pub open spec fn key_patch(patches: Seq<Patch>, key: (Option<u16>, Option<Seq<u8>>)) -> Option<
    usize,
> {
    match key.0 {
        Some(k) => patch_place(patches, k),
        None => None,
    }
}

/// Whether notes on a profile may share a track with those of other sounds of the same
/// shape. Arpeggios do if their offset tables are equal, which is part of the shape, and
/// no longer than the sixty-four steps of the target's arpeggiator.
pub open spec fn can_merge(patches: Seq<Patch>, patch: Option<usize>, profile: Option<usize>) -> bool {
    match profile {
        Some(q) => match patches[patch->0 as int].voices@[q as int].arpeggio_loop {
            Some(a) => a@.len() <= 64,
            None => true,
        },
        None => false,
    }
}

/// The draft of a group of melodic notes.
pub open spec fn melodic_draft(
    notes: Seq<SynthNote>,
    patches: Seq<Patch>,
    states: Seq<ProgramFrame>,
    voice: VoiceId,
    key: (Option<u16>, Option<Seq<u8>>),
    events: Seq<usize>,
) -> DraftView {
    let patch = key_patch(patches, key);
    let profile = profile_place(patches, patch, voice);
    DraftView {
        voice,
        patch,
        profile,
        shape: group_shape(notes, patches, states, voice, key, events),
        mergeable: can_merge(patches, patch, profile),
        drum_drop: false,
        waveform_program: key.1,
        events,
    }
}

/// The draft of the drum drops of a voice.
pub open spec fn drum_draft(voice: VoiceId, events: Seq<usize>) -> DraftView {
    DraftView {
        voice,
        patch: None,
        profile: None,
        shape: shape(None, None, None),
        mergeable: false,
        drum_drop: true,
        waveform_program: None,
        events,
    }
}

fn controls_in(notes: &[SynthNote], states: &[ProgramFrame], voice: VoiceId, events: &[usize]) -> (r: (
    bool,
    bool,
))
    requires
        voice.valid(),
        forall|e: int| 0 <= e < events@.len() ==> #[trigger] events@[e] < notes@.len(),
    ensures
        r.0 == some_ring(notes@, states@, voice, events@),
        r.1 == some_sync(notes@, states@, voice, events@),
{
    let v: usize = voice.to_index();
    let mut ring: bool = false;
    let mut sync: bool = false;
    let mut e: usize = 0;
    while e < events.len()
        invariant
            e <= events@.len(),
            v < 3,
            v == voice.0 - 1,
            forall|e: int| 0 <= e < events@.len() ==> #[trigger] events@[e] < notes@.len(),
            ring ==> some_ring(notes@, states@, voice, events@),
            sync ==> some_sync(notes@, states@, voice, events@),
            forall|d: int, f: int|
                0 <= d < e && sounds_at(
                    notes@[#[trigger] events@[d] as int].event,
                    states@.len(),
                    f,
                ) ==> (((#[trigger] states@[f]).voices@[v as int].ring_mod ==> ring) && (
                states@[f].voices@[v as int].sync ==> sync)),
        decreases events@.len() - e,
    {
        let event: NoteEvent = notes[events[e]].event;
        let range: (usize, usize) = event.frame_range(states.len());
        let mut f: usize = range.0;
        while f < range.1
            invariant
                range.0 <= f <= range.1 <= states@.len(),
                e < events@.len(),
                v < 3,
                v == voice.0 - 1,
                events@[e as int] < notes@.len(),
                event == notes@[events@[e as int] as int].event,
                (range.0 as int, range.1 as int) == event.frames_in(states@.len()),
                ring ==> some_ring(notes@, states@, voice, events@),
                sync ==> some_sync(notes@, states@, voice, events@),
                forall|d: int, f: int|
                    0 <= d < e && sounds_at(
                        notes@[#[trigger] events@[d] as int].event,
                        states@.len(),
                        f,
                    ) ==> (((#[trigger] states@[f]).voices@[v as int].ring_mod ==> ring) && (
                    states@[f].voices@[v as int].sync ==> sync)),
                forall|g: int|
                    range.0 <= g < f ==> (((#[trigger] states@[g]).voices@[v as int].ring_mod
                        ==> ring) && (states@[g].voices@[v as int].sync ==> sync)),
            decreases range.1 - f,
        {
            assert(sounds_at(notes@[events@[e as int] as int].event, states@.len(), f as int));
            if states[f].voices[v].ring_mod {
                ring = true;
            }
            if states[f].voices[v].sync {
                sync = true;
            }
            f += 1;
        }
        e += 1;
    }
    (ring, sync)
}

fn draft_group(
    notes: &[SynthNote],
    patches: &[Patch],
    states: &[ProgramFrame],
    voice: VoiceId,
    key: &SoundKey,
    events: Vec<usize>,
) -> (r: Draft)
    requires
        voice.valid(),
        key.key().1 matches Some(p) ==> p.len() <= 16,
        forall|e: int| 0 <= e < events@.len() ==> #[trigger] events@[e] < notes@.len(),
    ensures
        r.view() == melodic_draft(notes@, patches@, states@, voice, key.key(), events@),
{
    let patch: Option<usize> = find_patch(patches, key.patch);
    let profile: Option<usize> = find_profile(patches, patch, voice);
    let program: Option<&[u8]> = match &key.program {
        Some(p) => Some(p.as_slice()),
        None => None,
    };
    let mut shape: MergeShape = match (patch, profile) {
        (Some(p), Some(q)) => shape_of(Some(&patches[p]), Some(&patches[p].voices[q]), program),
        _ => shape_of(None, None, None),
    };
    let mut mergeable: bool = false;
    if profile.is_none() {
        if events.len() > 0 {
            let f: usize = notes[events[0]].event.start_frame as usize;
            if f < states.len() && states[f].filter.routing[voice.to_index()] {
                shape.filter_kind = Some(filter_kind(states[f].filter.mode));
            }
        }
        let (ring, sync) = controls_in(notes, states, voice, events.as_slice());
        shape.has_ring = ring;
        shape.has_sync = sync;
    } else if let Some(p) = patch {
        if let Some(q) = profile {
            mergeable = match &patches[p].voices[q].arpeggio_loop {
                Some(a) => a.len() <= 64,
                None => true,
            };
        }
    }
    Draft {
        voice,
        patch,
        profile,
        shape,
        mergeable,
        drum_drop: false,
        waveform_program: copy_optional(&key.program),
        events,
    }
}

/// The items of a list at given places.
pub open spec fn gather<T>(list: Seq<T>, at: Seq<usize>) -> Seq<T> {
    Seq::new(at.len(), |j: int| list[at[j] as int])
}

fn gather_items(list: &[usize], at: &[usize]) -> (r: Vec<usize>)
    requires
        forall|j: int| 0 <= j < at@.len() ==> #[trigger] at@[j] < list@.len(),
    ensures
        r@ == gather(list@, at@),
{
    let mut out: Vec<usize> = Vec::new();
    let mut j: usize = 0;
    while j < at.len()
        invariant
            j <= at@.len(),
            forall|j: int| 0 <= j < at@.len() ==> #[trigger] at@[j] < list@.len(),
            out@.len() == j,
            forall|i: int| 0 <= i < j ==> #[trigger] out@[i] == list@[at@[i] as int],
        decreases at@.len() - j,
    {
        out.push(list[at[j]]);
        j += 1;
    }
    assert(out@ =~= gather(list@, at@));
    out
}

/// The drafts of the melodic notes of a voice.
pub open spec fn melodic_drafts(
    notes: Seq<SynthNote>,
    patches: Seq<Patch>,
    states: Seq<ProgramFrame>,
    voice: VoiceId,
    m: Seq<usize>,
) -> Seq<DraftView> {
    let keys = sound_keys(notes, patches, voice, m);
    let groups = group_places(keys);
    Seq::new(
        groups.len(),
        |g: int|
            melodic_draft(
                notes,
                patches,
                states,
                voice,
                keys[groups[g][0] as int],
                gather(m, groups[g]),
            ),
    )
}

/// The drafts of a voice: one for each sound, and one for its drum drops.
pub open spec fn voice_drafts(
    notes: Seq<SynthNote>,
    patches: Seq<Patch>,
    states: Seq<ProgramFrame>,
    frame_count: u32,
    voice: VoiceId,
) -> Seq<DraftView> {
    let m = voice_notes(notes, states, frame_count, voice, false);
    let d = voice_notes(notes, states, frame_count, voice, true);
    let melodic = melodic_drafts(notes, patches, states, voice, m);
    if d.len() > 0 {
        melodic.push(drum_draft(voice, d))
    } else {
        melodic
    }
}

/// Drafts as plain values.
pub open spec fn draft_views(drafts: Seq<Draft>) -> Seq<DraftView> {
    Seq::new(drafts.len(), |i: int| drafts[i].view())
}

fn push_voice_drafts(
    notes: &[SynthNote],
    patches: &[Patch],
    states: &[ProgramFrame],
    frame_count: u32,
    voice: VoiceId,
    out: &mut Vec<Draft>,
)
    requires
        voice.valid(),
        programs_fit(notes@),
    ensures
        draft_views(final(out)@) == draft_views(old(out)@) + voice_drafts(
            notes@,
            patches@,
            states@,
            frame_count,
            voice,
        ),
{
    let ghost start = out@;
    let (m, drums) = split_voice(notes, states, frame_count, voice);
    let ghost tonal = plays_on(notes@, states@, frame_count, voice, false);
    let len: usize = notes.len();
    proof {
        places_are_exact(len as int, tonal);
    }
    let keys: Vec<SoundKey> = collect_keys(notes, patches, voice, m.as_slice());
    let ghost plain = sound_keys(notes@, patches@, voice, m@);
    proof {
        groups_partition(plain);
    }
    let mut groups: Vec<Vec<usize>> = group_by_key(keys.as_slice());
    let ghost wanted = group_places(plain);
    let ghost melodic = melodic_drafts(notes@, patches@, states@, voice, m@);
    let mut g: usize = 0;
    while g < groups.len()
        invariant
            g <= groups@.len(),
            voice.valid(),
            programs_fit(notes@),
            plain == sound_keys(notes@, patches@, voice, m@),
            plain == plain_keys(keys@),
            wanted == group_places(plain),
            melodic == melodic_drafts(notes@, patches@, states@, voice, m@),
            groups@.len() == wanted.len(),
            melodic.len() == wanted.len(),
            m@.len() == plain.len(),
            forall|h: int| 0 <= h < groups@.len() ==> (#[trigger] groups@[h])@ == wanted[h],
            forall|i: int| 0 <= i < m@.len() ==> #[trigger] m@[i] < notes@.len(),
            forall|h: int, i: int|
                0 <= h < wanted.len() && 0 <= i < wanted[h].len() ==> #[trigger] wanted[h][i]
                    < plain.len(),
            forall|h: int| 0 <= h < wanted.len() ==> (#[trigger] wanted[h]).len() > 0,
            out@.len() == start.len() + g,
            forall|i: int| 0 <= i < start.len() ==> #[trigger] out@[i] == start[i],
            forall|h: int| 0 <= h < g ==> (#[trigger] out@[start.len() + h]).view() == melodic[h],
        decreases groups@.len() - g,
    {
        assert(groups@[g as int]@ == wanted[g as int]);
        let ghost before = out@;
        let first: usize = groups[g][0];
        assert(first == wanted[g as int][0]);
        let events: Vec<usize> = gather_items(m.as_slice(), groups[g].as_slice());
        proof {
            assert(keys@[first as int].key() == plain[first as int]);
            assert(programs_fit(notes@));
            assert(note_program(notes@[m@[first as int] as int]) matches Some(p) ==> p.len() <= 16);
        }
        let draft: Draft = draft_group(notes, patches, states, voice, &keys[first], events);
        assert(draft.view() == melodic[g as int]);
        out.push(draft);
        assert forall|h: int| 0 <= h < g + 1 implies (#[trigger] out@[start.len() + h]).view()
            == melodic[h] by {
            if h < g {
                assert(out@[start.len() + h] == before[start.len() + h]);
            }
        }
        g += 1;
    }
    let ghost listed = out@;
    if drums.len() > 0 {
        let draft: Draft = Draft {
            voice,
            patch: None,
            profile: None,
            shape: shape_of(None, None, None),
            mergeable: false,
            drum_drop: true,
            waveform_program: None,
            events: drums,
        };
        out.push(draft);
    }
    proof {
        let all = voice_drafts(notes@, patches@, states@, frame_count, voice);
        assert forall|h: int| 0 <= h < all.len() implies (#[trigger] out@[start.len() + h]).view()
            == all[h] by {
            if h < melodic.len() {
                assert(out@[start.len() + h] == listed[start.len() + h]);
            }
        }
        let joined = draft_views(start) + all;
        assert forall|i: int| 0 <= i < joined.len() implies draft_views(out@)[i] == joined[i] by {
            if i >= start.len() {
                assert(out@[start.len() + (i - start.len())].view() == all[i - start.len()]);
            } else {
                assert(out@[i] == listed[i]);
            }
        }
        assert(draft_views(out@) =~= joined);
    }
}

/// The notes of one sound on a track.
#[derive(Debug)]
pub struct Segment {
    pub patch: Option<usize>,
    pub profile: Option<usize>,
    pub events: Vec<usize>,
}

/// A segment as plain values.
pub struct SegmentView {
    pub patch: Option<usize>,
    pub profile: Option<usize>,
    pub events: Seq<usize>,
}

impl Segment {
    /// The segment as plain values.
    pub open spec fn view(self) -> SegmentView {
        SegmentView { patch: self.patch, profile: self.profile, events: self.events@ }
    }
}

/// A planned track: the notes of one voice that share an instrument.
#[derive(Debug)]
pub struct TrackPlan {
    pub instrument_id: u32,
    pub voice: VoiceId,
    pub shape: MergeShape,
    /// Whether the track holds the drum drops of its voice.
    pub drum_drop: bool,
    pub waveform_program: Option<Vec<u8>>,
    pub segments: Vec<Segment>,
    /// All notes in the order of time, each with the segment that it is from.
    pub timeline: Vec<(usize, usize)>,
}

/// A track plan as plain values.
pub struct PlanView {
    pub instrument_id: u32,
    pub voice: VoiceId,
    pub shape: ShapeView,
    pub drum_drop: bool,
    pub waveform_program: Option<Seq<u8>>,
    pub segments: Seq<SegmentView>,
    pub timeline: Seq<(usize, usize)>,
}

/// Segments as plain values.
pub open spec fn segment_views(segments: Seq<Segment>) -> Seq<SegmentView> {
    Seq::new(segments.len(), |i: int| segments[i].view())
}

impl TrackPlan {
    /// The plan as plain values.
    pub open spec fn view(self) -> PlanView {
        PlanView {
            instrument_id: self.instrument_id,
            voice: self.voice,
            shape: self.shape.view(),
            drum_drop: self.drum_drop,
            waveform_program: optional_view(self.waveform_program),
            segments: segment_views(self.segments@),
            timeline: self.timeline@,
        }
    }
}

/// Plans as plain values.
pub open spec fn plan_views(plans: Seq<TrackPlan>) -> Seq<PlanView> {
    Seq::new(plans.len(), |i: int| plans[i].view())
}

/// What puts drafts on one track: voice and shape. A draft that may not share a
/// track stands for itself.
#[derive(Debug)]
pub struct MergeKey {
    pub voice: VoiceId,
    pub shape: MergeShape,
    pub own: Option<usize>,
}

impl GroupKey for MergeKey {
    type Key = (VoiceId, ShapeView, Option<usize>);

    open spec fn key(&self) -> (VoiceId, ShapeView, Option<usize>) {
        (self.voice, self.shape.view(), self.own)
    }

    fn same_key(&self, other: &MergeKey) -> (r: bool) {
        self.voice == other.voice && self.own == other.own && self.shape.same(&other.shape)
    }
}

/// What drafts are put together by.
pub open spec fn merge_keys(drafts: Seq<DraftView>) -> Seq<(VoiceId, ShapeView, Option<usize>)> {
    Seq::new(
        drafts.len(),
        |i: int|
            (
                drafts[i].voice,
                drafts[i].shape,
                if drafts[i].mergeable {
                    None
                } else {
                    Some(i as usize)
                },
            ),
    )
}

/// The notes of segments, each with its segment.
pub open spec fn entries(segments: Seq<SegmentView>) -> Seq<(usize, usize)>
    decreases segments.len(),
{
    if segments.len() == 0 {
        Seq::empty()
    } else {
        entries(segments.drop_last()) + Seq::new(
            segments.last().events.len(),
            |j: int| ((segments.len() - 1) as usize, segments.last().events[j]),
        )
    }
}

/// The frame at which the note of an entry starts.
pub open spec fn entry_start(notes: Seq<SynthNote>) -> spec_fn((usize, usize)) -> int {
    |e: (usize, usize)| notes[e.1 as int].event.start_frame as int
}

/// The notes of segments in the order of time.
pub open spec fn timeline(notes: Seq<SynthNote>, segments: Seq<SegmentView>) -> Seq<(usize, usize)> {
    sorted_by(entries(segments), entry_start(notes))
}

/// The segments that a group of drafts makes up.
pub open spec fn group_segments(drafts: Seq<DraftView>, group: Seq<usize>) -> Seq<SegmentView> {
    Seq::new(
        group.len(),
        |i: int|
            SegmentView {
                patch: drafts[group[i] as int].patch,
                profile: drafts[group[i] as int].profile,
                events: drafts[group[i] as int].events,
            },
    )
}

/// The plan that a group of drafts makes up; it has no instrument yet.
pub open spec fn group_plan(
    notes: Seq<SynthNote>,
    drafts: Seq<DraftView>,
    group: Seq<usize>,
) -> PlanView {
    let first = drafts[group[0] as int];
    PlanView {
        instrument_id: 0,
        voice: first.voice,
        shape: first.shape,
        drum_drop: first.drum_drop,
        waveform_program: first.waveform_program,
        segments: group_segments(drafts, group),
        timeline: timeline(notes, group_segments(drafts, group)),
    }
}

/// The plans that drafts are put together to.
pub open spec fn merged_plans(notes: Seq<SynthNote>, drafts: Seq<DraftView>) -> Seq<PlanView> {
    let groups = group_places(merge_keys(drafts));
    Seq::new(groups.len(), |g: int| group_plan(notes, drafts, groups[g]))
}

/// The frame at which a plan's first note starts.
pub open spec fn plan_start(notes: Seq<SynthNote>) -> spec_fn(PlanView) -> int {
    |p: PlanView|
        if p.timeline.len() > 0 {
            entry_start(notes)(p.timeline[0])
        } else {
            u32::MAX as int
        }
}

/// Plans with instruments numbered from one.
pub open spec fn numbered(plans: Seq<PlanView>) -> Seq<PlanView> {
    Seq::new(plans.len(), |i: int| PlanView { instrument_id: (i + 1) as u32, ..plans[i] })
}

/// The drafts of all voices.
pub open spec fn all_drafts(
    notes: Seq<SynthNote>,
    patches: Seq<Patch>,
    states: Seq<ProgramFrame>,
    frame_count: u32,
) -> Seq<DraftView> {
    voice_drafts(notes, patches, states, frame_count, VoiceId(1)) + voice_drafts(
        notes,
        patches,
        states,
        frame_count,
        VoiceId(2),
    ) + voice_drafts(notes, patches, states, frame_count, VoiceId(3))
}

/// The tracks of a tune, in the order of their first notes.
pub open spec fn track_plans(
    notes: Seq<SynthNote>,
    patches: Seq<Patch>,
    states: Seq<ProgramFrame>,
    frame_count: u32,
) -> Seq<PlanView> {
    numbered(
        sorted_by(
            merged_plans(notes, all_drafts(notes, patches, states, frame_count)),
            plan_start(notes),
        ),
    )
}

fn insert_entry(notes: &[SynthNote], timeline: &mut Vec<(usize, usize)>, entry: (usize, usize))
    requires
        entry.1 < notes@.len(),
        forall|i: int| 0 <= i < old(timeline)@.len() ==> (#[trigger] old(timeline)@[i]).1 < notes@.len(),
    ensures
        final(timeline)@ == insert_by(old(timeline)@, entry, entry_start(notes@)),
        forall|i: int|
            0 <= i < final(timeline)@.len() ==> (#[trigger] final(timeline)@[i]).1 < notes@.len(),
{
    let ghost key = entry_start(notes@);
    let start: u32 = notes[entry.1].event.start_frame;
    let mut at: usize = timeline.len();
    while at > 0 && notes[timeline[at - 1].1].event.start_frame > start
        invariant
            at <= timeline@.len(),
            key == entry_start(notes@),
            timeline@ == old(timeline)@,
            entry.1 < notes@.len(),
            start == notes@[entry.1 as int].event.start_frame,
            forall|i: int| 0 <= i < timeline@.len() ==> (#[trigger] timeline@[i]).1 < notes@.len(),
            forall|i: int| at <= i < timeline@.len() ==> key(#[trigger] timeline@[i]) > start,
        decreases at,
    {
        at -= 1;
    }
    proof {
        insertion_point(timeline@, entry, key, at as int);
    }
    timeline.insert(at, entry);
}

fn build_timeline(notes: &[SynthNote], segments: &[Segment]) -> (r: Vec<(usize, usize)>)
    requires
        forall|s: int, e: int|
            0 <= s < segments@.len() && 0 <= e < segments@[s].events@.len()
                ==> #[trigger] segments@[s].events@[e] < notes@.len(),
    ensures
        r@ == timeline(notes@, segment_views(segments@)),
{
    let ghost views = segment_views(segments@);
    let ghost key = entry_start(notes@);
    let mut out: Vec<(usize, usize)> = Vec::new();
    let mut s: usize = 0;
    let ghost mut listed = Seq::<(usize, usize)>::empty();
    assert(views.take(0) =~= Seq::<SegmentView>::empty());
    while s < segments.len()
        invariant
            s <= segments@.len(),
            views == segment_views(segments@),
            key == entry_start(notes@),
            forall|s: int, e: int|
                0 <= s < segments@.len() && 0 <= e < segments@[s].events@.len()
                    ==> #[trigger] segments@[s].events@[e] < notes@.len(),
            listed == entries(views.take(s as int)),
            out@ == sorted_by(listed, key),
            forall|i: int| 0 <= i < out@.len() ==> (#[trigger] out@[i]).1 < notes@.len(),
        decreases segments@.len() - s,
    {
        let ghost before = listed;
        let mut e: usize = 0;
        while e < segments[s].events.len()
            invariant
                s < segments@.len(),
                e <= segments@[s as int].events@.len(),
                key == entry_start(notes@),
                forall|s: int, e: int|
                    0 <= s < segments@.len() && 0 <= e < segments@[s].events@.len()
                        ==> #[trigger] segments@[s].events@[e] < notes@.len(),
                listed == before + Seq::new(
                    e as nat,
                    |j: int| (s, segments@[s as int].events@[j]),
                ),
                out@ == sorted_by(listed, key),
                forall|i: int| 0 <= i < out@.len() ==> (#[trigger] out@[i]).1 < notes@.len(),
            decreases segments@[s as int].events@.len() - e,
        {
            let entry: (usize, usize) = (s, segments[s].events[e]);
            insert_entry(notes, &mut out, entry);
            proof {
                let next = listed.push(entry);
                assert(next.drop_last() =~= listed);
                assert(next =~= before + Seq::new(
                    (e + 1) as nat,
                    |j: int| (s, segments@[s as int].events@[j]),
                ));
                listed = next;
            }
            e += 1;
        }
        proof {
            let t = views.take(s + 1);
            assert(t.drop_last() =~= views.take(s as int));
            assert(t.last() == segments@[s as int].view());
            assert(listed =~= entries(t));
        }
        s += 1;
    }
    assert(views.take(views.len() as int) =~= views);
    out
}

/// Notes that a list of drafts names exist.
pub open spec fn drafts_name_notes(drafts: Seq<DraftView>, notes: Seq<SynthNote>) -> bool {
    forall|d: int, e: int|
        0 <= d < drafts.len() && 0 <= e < drafts[d].events.len()
            ==> #[trigger] drafts[d].events[e] < notes.len()
}

fn plan_group(notes: &[SynthNote], drafts: &[Draft], group: &[usize]) -> (r: TrackPlan)
    requires
        group@.len() > 0,
        forall|i: int| 0 <= i < group@.len() ==> #[trigger] group@[i] < drafts@.len(),
        drafts_name_notes(draft_views(drafts@), notes@),
    ensures
        r.view() == group_plan(notes@, draft_views(drafts@), group@),
{
    let ghost views = draft_views(drafts@);
    let mut segments: Vec<Segment> = Vec::new();
    let mut i: usize = 0;
    while i < group.len()
        invariant
            i <= group@.len(),
            forall|i: int| 0 <= i < group@.len() ==> #[trigger] group@[i] < drafts@.len(),
            views == draft_views(drafts@),
            segments@.len() == i,
            forall|j: int|
                0 <= j < i ==> (#[trigger] segments@[j]).view() == group_segments(views, group@)[j],
        decreases group@.len() - i,
    {
        let d: &Draft = &drafts[group[i]];
        assert(views[group@[i as int] as int] == d.view());
        let segment: Segment = Segment {
            patch: d.patch,
            profile: d.profile,
            events: copy_items(d.events.as_slice()),
        };
        assert(segment.view() == group_segments(views, group@)[i as int]);
        segments.push(segment);
        i += 1;
    }
    assert(segment_views(segments@) =~= group_segments(views, group@));
    proof {
        assert forall|s: int, e: int|
            0 <= s < segments@.len() && 0 <= e
                < segments@[s].events@.len() implies #[trigger] segments@[s].events@[e]
            < notes@.len() by {
            assert(segments@[s].view() == group_segments(views, group@)[s]);
            assert(segments@[s].events@ == views[group@[s] as int].events);
            assert(views[group@[s] as int].events[e] < notes@.len());
        }
    }
    let timeline: Vec<(usize, usize)> = build_timeline(notes, segments.as_slice());
    let first: &Draft = &drafts[group[0]];
    assert(views[group@[0] as int] == first.view());
    TrackPlan {
        instrument_id: 0,
        voice: first.voice,
        shape: first.shape.copy(),
        drum_drop: first.drum_drop,
        waveform_program: copy_optional(&first.waveform_program),
        segments,
        timeline,
    }
}

fn collect_merge_keys(drafts: &[Draft]) -> (r: Vec<MergeKey>)
    ensures
        plain_keys(r@) == merge_keys(draft_views(drafts@)),
{
    let ghost views = draft_views(drafts@);
    let mut keys: Vec<MergeKey> = Vec::new();
    let mut i: usize = 0;
    while i < drafts.len()
        invariant
            i <= drafts@.len(),
            views == draft_views(drafts@),
            keys@.len() == i,
            forall|j: int| 0 <= j < i ==> (#[trigger] keys@[j]).key() == merge_keys(views)[j],
        decreases drafts@.len() - i,
    {
        let d: &Draft = &drafts[i];
        assert(views[i as int] == d.view());
        let key: MergeKey = MergeKey {
            voice: d.voice,
            shape: d.shape.copy(),
            own: if d.mergeable {
                None
            } else {
                Some(i)
            },
        };
        assert(key.key() == merge_keys(views)[i as int]);
        keys.push(key);
        i += 1;
    }
    assert(plain_keys(keys@) =~= merge_keys(views));
    keys
}

fn first_start(notes: &[SynthNote], plan: &TrackPlan) -> (r: u32)
    requires
        plan.timeline@.len() > 0 ==> plan.timeline@[0].1 < notes@.len(),
    ensures
        r == plan_start(notes@)(plan.view()),
{
    if plan.timeline.len() > 0 {
        notes[plan.timeline[0].1].event.start_frame
    } else {
        u32::MAX
    }
}

fn insert_plan(notes: &[SynthNote], plans: &mut Vec<TrackPlan>, plan: TrackPlan)
    requires
        plan.timeline@.len() > 0 ==> plan.timeline@[0].1 < notes@.len(),
        forall|i: int|
            0 <= i < old(plans)@.len() ==> (#[trigger] old(plans)@[i]).timeline@.len() > 0
                ==> old(plans)@[i].timeline@[0].1 < notes@.len(),
    ensures
        plan_views(final(plans)@) == insert_by(
            plan_views(old(plans)@),
            plan.view(),
            plan_start(notes@),
        ),
        forall|i: int|
            0 <= i < final(plans)@.len() ==> (#[trigger] final(plans)@[i]).timeline@.len() > 0
                ==> final(plans)@[i].timeline@[0].1 < notes@.len(),
{
    let ghost key = plan_start(notes@);
    let ghost views = plan_views(plans@);
    let start: u32 = first_start(notes, &plan);
    let mut at: usize = plans.len();
    while at > 0 && first_start(notes, &plans[at - 1]) > start
        invariant
            at <= plans@.len(),
            key == plan_start(notes@),
            plans@ == old(plans)@,
            views == plan_views(plans@),
            forall|i: int|
                0 <= i < plans@.len() ==> (#[trigger] plans@[i]).timeline@.len() > 0
                    ==> plans@[i].timeline@[0].1 < notes@.len(),
            forall|i: int| at <= i < views.len() ==> key(#[trigger] views[i]) > start,
        decreases at,
    {
        at -= 1;
    }
    proof {
        if at > 0 {
            assert(views[at - 1] == plans@[at - 1].view());
        }
        insertion_point(views, plan.view(), key, at as int);
    }
    let ghost added = plan.view();
    plans.insert(at, plan);
    assert(plan_views(plans@) =~= views.insert(at as int, added));
}

proof fn entries_name(segments: Seq<SegmentView>, i: int)
    requires
        0 <= i < entries(segments).len(),
        segments.len() <= usize::MAX,
    ensures
        ({
            let e = entries(segments)[i];
            0 <= e.0 < segments.len() && segments[e.0 as int].events.contains(e.1)
        }),
    decreases segments.len(),
{
    let t = segments.drop_last();
    if i < entries(t).len() {
        entries_name(t, i);
        let e = entries(t)[i];
        assert(t[e.0 as int] == segments[e.0 as int]);
    } else {
        let j = i - entries(t).len();
        assert(segments.last().events[j] == entries(segments)[i].1);
    }
}

proof fn group_plan_names_notes(notes: Seq<SynthNote>, drafts: Seq<DraftView>, group: Seq<usize>)
    requires
        group.len() <= usize::MAX,
        forall|i: int| 0 <= i < group.len() ==> #[trigger] group[i] < drafts.len(),
        drafts_name_notes(drafts, notes),
    ensures
        forall|i: int|
            0 <= i < group_plan(notes, drafts, group).timeline.len() ==> (
            #[trigger] group_plan(notes, drafts, group).timeline[i]).1 < notes.len(),
{
    let segments = group_segments(drafts, group);
    let t = group_plan(notes, drafts, group).timeline;
    sorting_keeps(entries(segments), entry_start(notes));
    same_items(t, entries(segments));
    assert forall|i: int| 0 <= i < t.len() implies (#[trigger] t[i]).1 < notes.len() by {
        assert(t.contains(t[i]));
        assert(entries(segments).contains(t[i]));
        let k = choose|k: int| 0 <= k < entries(segments).len() && entries(segments)[k] == t[i];
        entries_name(segments, k);
        let s = t[i].0 as int;
        let e = choose|e: int| 0 <= e < segments[s].events.len() && segments[s].events[e] == t[i].1;
        assert(drafts[group[s] as int].events[e] < notes.len());
    }
}

/// Drafts hold notes of their own voice, each of them once, and none is empty.
pub open spec fn drafts_are_disjoint(drafts: Seq<DraftView>, notes: Seq<SynthNote>) -> bool {
    &&& drafts_name_notes(drafts, notes)
    &&& forall|d: int| 0 <= d < drafts.len() ==> (#[trigger] drafts[d]).events.len() > 0
    &&& forall|d: int, e: int|
        0 <= d < drafts.len() && 0 <= e < drafts[d].events.len() ==> notes[
        #[trigger] drafts[d].events[e] as int].event.voice == drafts[d].voice
    &&& forall|d: int, e: int, c: int, f: int|
        0 <= d < drafts.len() && 0 <= e < drafts[d].events.len() && 0 <= c < drafts.len() && 0 <= f
            < drafts[c].events.len() && #[trigger] drafts[d].events[e]
            == #[trigger] drafts[c].events[f] ==> d == c && e == f
}

/// Whether some draft holds a note.
pub open spec fn is_drafted(drafts: Seq<DraftView>, i: int) -> bool {
    exists|d: int, e: int|
        0 <= d < drafts.len() && 0 <= e < drafts[d].events.len() && #[trigger] drafts[d].events[e]
            == i
}

proof fn voice_drafts_partition(
    notes: Seq<SynthNote>,
    patches: Seq<Patch>,
    states: Seq<ProgramFrame>,
    frame_count: u32,
    voice: VoiceId,
)
    requires
        notes.len() <= usize::MAX,
    ensures
        ({
            let drafts = voice_drafts(notes, patches, states, frame_count, voice);
            &&& drafts_are_disjoint(drafts, notes)
            &&& forall|d: int| 0 <= d < drafts.len() ==> (#[trigger] drafts[d]).voice == voice
            &&& forall|i: int|
                0 <= i < notes.len() && (#[trigger] notes[i]).event.voice == voice ==> is_drafted(
                    drafts,
                    i,
                )
        }),
{
    let n = notes.len() as int;
    let drafts = voice_drafts(notes, patches, states, frame_count, voice);
    let tonal = plays_on(notes, states, frame_count, voice, false);
    let drum = plays_on(notes, states, frame_count, voice, true);
    let m = voice_notes(notes, states, frame_count, voice, false);
    let ds = voice_notes(notes, states, frame_count, voice, true);
    places_are_exact(n, tonal);
    places_are_exact(n, drum);
    let keys = sound_keys(notes, patches, voice, m);
    let groups = group_places(keys);
    groups_partition(keys);
    let melodic = melodic_drafts(notes, patches, states, voice, m);
    assert(melodic.len() == groups.len());
    assert forall|g: int, e: int| 0 <= g < melodic.len() && 0 <= e < melodic[g].events.len() implies
        melodic[g].events[e] == m[groups[g][e] as int] && groups[g][e] < m.len() && tonal(
        #[trigger] melodic[g].events[e] as int,
    ) && melodic[g].events[e] < n by {
        assert(melodic[g].events == gather(m, groups[g]));
        assert(groups[g][e] < keys.len());
        assert(tonal(m[groups[g][e] as int] as int));
    }
    assert forall|d: int| 0 <= d < drafts.len() implies (#[trigger] drafts[d]).events.len() > 0
        && drafts[d].voice == voice by {
        if d < melodic.len() {
            assert(groups[d].len() > 0);
        }
    }
    assert forall|d: int, e: int|
        0 <= d < drafts.len() && 0 <= e < drafts[d].events.len() implies #[trigger] drafts[d].events[e]
        < n && notes[drafts[d].events[e] as int].event.voice == drafts[d].voice && (d
        < melodic.len() ==> tonal(drafts[d].events[e] as int)) && (d == melodic.len() ==> drum(
        drafts[d].events[e] as int,
    )) by {
        if d < melodic.len() {
            assert(tonal(melodic[d].events[e] as int));
        } else {
            assert(drum(ds[e] as int));
        }
    }
    assert forall|d: int, e: int, c: int, f: int|
        0 <= d < drafts.len() && 0 <= e < drafts[d].events.len() && 0 <= c < drafts.len() && 0 <= f
            < drafts[c].events.len() && #[trigger] drafts[d].events[e]
            == #[trigger] drafts[c].events[f] implies d == c && e == f by {
        let x = drafts[d].events[e];
        assert(!(tonal(x as int) && drum(x as int)));
        if d < melodic.len() {
            assert(tonal(x as int));
            assert(c < melodic.len());
            let a = groups[d][e];
            let b = groups[c][f];
            assert(melodic[d].events[e] == m[a as int] && melodic[c].events[f] == m[b as int]);
            if a < b {
                assert(m[a as int] < m[b as int]);
            }
            if b < a {
                assert(m[b as int] < m[a as int]);
            }
            assert(a == b);
            assert(keys[a as int] == keys[groups[d][0] as int]);
            assert(keys[b as int] == keys[groups[c][0] as int]);
            if d < c {
                assert(keys[groups[d][0] as int] != keys[groups[c][0] as int]);
            }
            if c < d {
                assert(keys[groups[c][0] as int] != keys[groups[d][0] as int]);
            }
            if e < f {
                assert(groups[d][e] < groups[d][f]);
            }
            if f < e {
                assert(groups[d][f] < groups[d][e]);
            }
        } else {
            assert(drum(x as int));
            assert(c == melodic.len());
            if e < f {
                assert(ds[e] < ds[f]);
            }
            if f < e {
                assert(ds[f] < ds[e]);
            }
        }
    }
    assert forall|i: int|
        0 <= i < notes.len() && (#[trigger] notes[i]).event.voice == voice implies is_drafted(
        drafts,
        i,
    ) by {
        if drum(i) {
            assert(ds.contains(i as usize));
            let e = choose|e: int| 0 <= e < ds.len() && ds[e] == i as usize;
            assert(drafts[melodic.len() as int].events[e] == i);
        } else {
            assert(tonal(i));
            assert(m.contains(i as usize));
            let j = choose|j: int| 0 <= j < m.len() && m[j] == i as usize;
            assert(super::grouping::is_grouped(keys, j));
            let g = choose|g: int|
                0 <= g < groups.len() && (#[trigger] groups[g]).contains(j as usize);
            let e = choose|e: int| 0 <= e < groups[g].len() && groups[g][e] == j as usize;
            assert(melodic[g].events[e] == m[groups[g][e] as int]);
            assert(drafts[g].events[e] == i);
        }
    }
}

proof fn joined_drafts(a: Seq<DraftView>, b: Seq<DraftView>, notes: Seq<SynthNote>)
    requires
        drafts_are_disjoint(a, notes),
        drafts_are_disjoint(b, notes),
        forall|d: int, c: int|
            0 <= d < a.len() && 0 <= c < b.len() ==> (#[trigger] a[d]).voice != (
            #[trigger] b[c]).voice,
    ensures
        drafts_are_disjoint(a + b, notes),
        forall|i: int| is_drafted(a, i) || is_drafted(b, i) ==> #[trigger] is_drafted(a + b, i),
{
    let s = a + b;
    assert forall|d: int, e: int| 0 <= d < s.len() && 0 <= e < s[d].events.len() implies
        #[trigger] s[d].events[e] < notes.len() && notes[s[d].events[e] as int].event.voice
        == s[d].voice by {
        if d < a.len() {
            assert(a[d].events[e] < notes.len());
        } else {
            assert(b[d - a.len()].events[e] < notes.len());
        }
    }
    assert forall|d: int, e: int, c: int, f: int|
        0 <= d < s.len() && 0 <= e < s[d].events.len() && 0 <= c < s.len() && 0 <= f
            < s[c].events.len() && #[trigger] s[d].events[e]
            == #[trigger] s[c].events[f] implies d == c && e == f by {
        if d < a.len() && c < a.len() {
            assert(a[d].events[e] == a[c].events[f]);
        } else if d >= a.len() && c >= a.len() {
            assert(b[d - a.len()].events[e] == b[c - a.len()].events[f]);
        } else if d < a.len() {
            assert(notes[a[d].events[e] as int].event.voice == a[d].voice);
            assert(notes[b[c - a.len()].events[f] as int].event.voice == b[c - a.len()].voice);
        } else {
            assert(notes[a[c].events[f] as int].event.voice == a[c].voice);
            assert(notes[b[d - a.len()].events[e] as int].event.voice == b[d - a.len()].voice);
        }
    }
    assert forall|i: int| is_drafted(a, i) || is_drafted(b, i) implies #[trigger] is_drafted(
        s,
        i,
    ) by {
        if is_drafted(a, i) {
            let (d, e) = choose|d: int, e: int|
                0 <= d < a.len() && 0 <= e < a[d].events.len() && #[trigger] a[d].events[e] == i;
            assert(s[d].events[e] == i);
        } else {
            let (d, e) = choose|d: int, e: int|
                0 <= d < b.len() && 0 <= e < b[d].events.len() && #[trigger] b[d].events[e] == i;
            assert(s[a.len() + d].events[e] == i);
        }
    }
}

/// The drafts of all voices hold each note of a voice of the chip once.
proof fn drafts_partition(
    notes: Seq<SynthNote>,
    patches: Seq<Patch>,
    states: Seq<ProgramFrame>,
    frame_count: u32,
)
    requires
        notes.len() <= usize::MAX,
    ensures
        drafts_are_disjoint(all_drafts(notes, patches, states, frame_count), notes),
        forall|i: int|
            0 <= i < notes.len() && (#[trigger] notes[i]).event.voice.valid() ==> is_drafted(
                all_drafts(notes, patches, states, frame_count),
                i,
            ),
{
    let a = voice_drafts(notes, patches, states, frame_count, VoiceId(1));
    let b = voice_drafts(notes, patches, states, frame_count, VoiceId(2));
    let c = voice_drafts(notes, patches, states, frame_count, VoiceId(3));
    voice_drafts_partition(notes, patches, states, frame_count, VoiceId(1));
    voice_drafts_partition(notes, patches, states, frame_count, VoiceId(2));
    voice_drafts_partition(notes, patches, states, frame_count, VoiceId(3));
    joined_drafts(a, b, notes);
    joined_drafts(a + b, c, notes);
    assert forall|i: int|
        0 <= i < notes.len() && (#[trigger] notes[i]).event.voice.valid() implies is_drafted(
        a + b + c,
        i,
    ) by {
        let v = notes[i].event.voice;
        if v == VoiceId(1) {
            assert(is_drafted(a, i));
            assert(is_drafted(a + b, i));
        } else if v == VoiceId(2) {
            assert(is_drafted(b, i));
            assert(is_drafted(a + b, i));
        } else {
            assert(v == VoiceId(3));
            assert(is_drafted(c, i));
        }
    }
}

/// There are no more drafts than notes.
proof fn drafts_are_few(drafts: Seq<DraftView>, notes: Seq<SynthNote>)
    requires
        drafts_are_disjoint(drafts, notes),
    ensures
        drafts.len() <= notes.len(),
{
    let firsts = Seq::new(drafts.len(), |d: int| drafts[d].events[0] as int);
    assert forall|d: int, c: int|
        0 <= d < firsts.len() && 0 <= c < firsts.len() && d != c implies firsts[d] != firsts[c] by {
        assert(drafts[d].events.len() > 0 && drafts[c].events.len() > 0);
        if firsts[d] == firsts[c] {
            assert(drafts[d].events[0] == drafts[c].events[0]);
        }
    }
    let all = vstd::set_lib::set_int_range(0, notes.len() as int);
    vstd::set_lib::lemma_int_range(0, notes.len() as int);
    assert forall|x: int| firsts.to_set().contains(x) implies all.contains(x) by {
        let d = choose|d: int| 0 <= d < firsts.len() && firsts[d] == x;
        assert(drafts[d].events.len() > 0);
        assert(drafts[d].events[0] < notes.len());
    }
    firsts.unique_seq_to_set();
    vstd::set_lib::lemma_len_subset(firsts.to_set(), all);
}

/// Plans hold notes of their own voice, each of them once, and none is empty.
pub open spec fn plans_are_disjoint(plans: Seq<PlanView>, notes: Seq<SynthNote>) -> bool {
    &&& forall|p: int| 0 <= p < plans.len() ==> (#[trigger] plans[p]).timeline.len() > 0
    &&& forall|p: int, t: int|
        0 <= p < plans.len() && 0 <= t < plans[p].timeline.len() ==> (
        #[trigger] plans[p].timeline[t]).1 < notes.len() && notes[plans[p].timeline[t].1 as int].event.voice
            == plans[p].voice
    &&& forall|p: int, t: int, q: int, u: int|
        0 <= p < plans.len() && 0 <= t < plans[p].timeline.len() && 0 <= q < plans.len() && 0 <= u
            < plans[q].timeline.len() && (#[trigger] plans[p].timeline[t]).1 == (
        #[trigger] plans[q].timeline[u]).1 ==> p == q && t == u
}

/// Whether some plan holds a note.
pub open spec fn is_planned(plans: Seq<PlanView>, i: int) -> bool {
    exists|p: int, t: int|
        0 <= p < plans.len() && 0 <= t < plans[p].timeline.len() && (
        #[trigger] plans[p].timeline[t]).1 == i
}

proof fn entries_cover(segments: Seq<SegmentView>, s: int, e: int)
    requires
        0 <= s < segments.len() <= usize::MAX,
        0 <= e < segments[s].events.len(),
    ensures
        entries(segments).contains((s as usize, segments[s].events[e])),
    decreases segments.len(),
{
    let t = segments.drop_last();
    if s < t.len() {
        entries_cover(t, s, e);
        let x = (s as usize, t[s].events[e]);
        let i = choose|i: int| 0 <= i < entries(t).len() && entries(t)[i] == x;
        assert(entries(segments)[i] == x);
    } else {
        assert(entries(segments)[entries(t).len() + e] == (s as usize, segments[s].events[e]));
    }
}

proof fn entries_are_distinct(segments: Seq<SegmentView>)
    requires
        segments.len() <= usize::MAX,
        forall|d: int, e: int, c: int, f: int|
            0 <= d < segments.len() && 0 <= e < segments[d].events.len() && 0 <= c < segments.len()
                && 0 <= f < segments[c].events.len() && #[trigger] segments[d].events[e]
                == #[trigger] segments[c].events[f] ==> d == c && e == f,
    ensures
        forall|i: int, j: int|
            0 <= i < entries(segments).len() && 0 <= j < entries(segments).len() && (
            #[trigger] entries(segments)[i]).1 == (#[trigger] entries(segments)[j]).1 ==> i == j,
    decreases segments.len(),
{
    if segments.len() > 0 {
        let t = segments.drop_last();
        assert forall|d: int, e: int, c: int, f: int|
            0 <= d < t.len() && 0 <= e < t[d].events.len() && 0 <= c < t.len() && 0 <= f
                < t[c].events.len() && #[trigger] t[d].events[e]
                == #[trigger] t[c].events[f] implies d == c && e == f by {
            assert(segments[d].events[e] == segments[c].events[f]);
        }
        entries_are_distinct(t);
        let all = entries(segments);
        let k = entries(t).len() as int;
        assert forall|i: int, j: int|
            0 <= i < all.len() && 0 <= j < all.len() && (#[trigger] all[i]).1 == (
            #[trigger] all[j]).1 implies i == j by {
            if i < k && j < k {
                assert(entries(t)[i].1 == entries(t)[j].1);
            } else if i >= k && j >= k {
                assert(segments.last().events[i - k] == segments.last().events[j - k]);
                assert(segments[t.len() as int].events[i - k] == segments[t.len() as int].events[j
                    - k]);
            } else if i < k {
                entry_apart(segments, i, j);
            } else {
                entry_apart(segments, j, i);
            }
        }
    }
}

proof fn entry_apart(segments: Seq<SegmentView>, i: int, j: int)
    requires
        0 < segments.len() <= usize::MAX,
        0 <= i < entries(segments.drop_last()).len() <= j < entries(segments).len(),
        forall|d: int, e: int, c: int, f: int|
            0 <= d < segments.len() && 0 <= e < segments[d].events.len() && 0 <= c < segments.len()
                && 0 <= f < segments[c].events.len() && #[trigger] segments[d].events[e]
                == #[trigger] segments[c].events[f] ==> d == c && e == f,
    ensures
        entries(segments)[i].1 != entries(segments)[j].1,
{
    let t = segments.drop_last();
    entries_name(t, i);
    let x = entries(t)[i];
    let e = choose|e: int| 0 <= e < t[x.0 as int].events.len() && t[x.0 as int].events[e] == x.1;
    assert(segments[x.0 as int].events[e] == x.1);
    let f = j - entries(t).len();
    assert(segments[t.len() as int].events[f] == entries(segments)[j].1);
}

/// The plan of a group holds each note of the group's drafts once.
proof fn group_plan_partition(notes: Seq<SynthNote>, drafts: Seq<DraftView>, group: Seq<usize>)
    requires
        0 < group.len() <= usize::MAX,
        forall|i: int| 0 <= i < group.len() ==> #[trigger] group[i] < drafts.len(),
        forall|i: int, j: int| 0 <= i < j < group.len() ==> #[trigger] group[i] < #[trigger] group[j],
        forall|i: int|
            0 <= i < group.len() ==> drafts[#[trigger] group[i] as int].voice
                == drafts[group[0] as int].voice,
        drafts_are_disjoint(drafts, notes),
    ensures
        ({
            let p = group_plan(notes, drafts, group);
            &&& p.timeline.len() > 0
            &&& forall|t: int|
                0 <= t < p.timeline.len() ==> (#[trigger] p.timeline[t]).1 < notes.len()
                    && notes[p.timeline[t].1 as int].event.voice == p.voice
            &&& forall|t: int, u: int|
                0 <= t < p.timeline.len() && 0 <= u < p.timeline.len() && (
                #[trigger] p.timeline[t]).1 == (#[trigger] p.timeline[u]).1 ==> t == u
            &&& forall|t: int|
                0 <= t < p.timeline.len() ==> (#[trigger] p.timeline[t]).0 < group.len()
                    && drafts[group[p.timeline[t].0 as int] as int].events.contains(
                    p.timeline[t].1,
                )
            &&& forall|s: int, e: int|
                0 <= s < group.len() && 0 <= e < drafts[group[s] as int].events.len()
                    ==> p.timeline.contains(
                    (s as usize, #[trigger] drafts[group[s] as int].events[e]),
                )
            &&& ascends(p.timeline, entry_start(notes))
        }),
{
    let p = group_plan(notes, drafts, group);
    let segments = group_segments(drafts, group);
    let es = entries(segments);
    sorting_keeps(es, entry_start(notes));
    same_items(p.timeline, es);
    assert forall|d: int, e: int, c: int, f: int|
        0 <= d < segments.len() && 0 <= e < segments[d].events.len() && 0 <= c < segments.len() && 0
            <= f < segments[c].events.len() && #[trigger] segments[d].events[e]
            == #[trigger] segments[c].events[f] implies d == c && e == f by {
        assert(drafts[group[d] as int].events[e] == drafts[group[c] as int].events[f]);
        if d < c {
            assert(group[d] < group[c]);
        }
        if c < d {
            assert(group[c] < group[d]);
        }
    }
    entries_are_distinct(segments);
    assert(es.no_duplicates());
    same_items(es, p.timeline);
    assert forall|t: int| 0 <= t < p.timeline.len() implies (#[trigger] p.timeline[t]).0
        < group.len() && drafts[group[p.timeline[t].0 as int] as int].events.contains(
        p.timeline[t].1,
    ) && p.timeline[t].1 < notes.len() && notes[p.timeline[t].1 as int].event.voice == p.voice by {
        let x = p.timeline[t];
        assert(p.timeline.contains(x));
        let k = choose|k: int| 0 <= k < es.len() && es[k] == x;
        entries_name(segments, k);
        let s = x.0 as int;
        let e = choose|e: int| 0 <= e < segments[s].events.len() && segments[s].events[e] == x.1;
        assert(drafts[group[s] as int].events[e] == x.1);
    }
    assert forall|t: int, u: int|
        0 <= t < p.timeline.len() && 0 <= u < p.timeline.len() && (#[trigger] p.timeline[t]).1 == (
        #[trigger] p.timeline[u]).1 implies t == u by {
        let x = p.timeline[t];
        let y = p.timeline[u];
        assert(p.timeline.contains(x) && p.timeline.contains(y));
        let k = choose|k: int| 0 <= k < es.len() && es[k] == x;
        let l = choose|l: int| 0 <= l < es.len() && es[l] == y;
        assert(k == l);
    }
    assert forall|s: int, e: int|
        0 <= s < group.len() && 0 <= e < drafts[group[s] as int].events.len() implies p.timeline.contains(

        (s as usize, #[trigger] drafts[group[s] as int].events[e])) by {
        entries_cover(segments, s, e);
        assert(es.contains((s as usize, segments[s].events[e])));
    }
    assert(drafts[group[0] as int].events.len() > 0);
    assert(p.timeline.contains((0usize, drafts[group[0] as int].events[0])));
}

proof fn merged_plans_partition(notes: Seq<SynthNote>, drafts: Seq<DraftView>)
    requires
        notes.len() <= usize::MAX,
        drafts_are_disjoint(drafts, notes),
    ensures
        plans_are_disjoint(merged_plans(notes, drafts), notes),
        forall|p: int|
            0 <= p < merged_plans(notes, drafts).len() ==> ascends(
                (#[trigger] merged_plans(notes, drafts)[p]).timeline,
                entry_start(notes),
            ),
        forall|i: int| is_drafted(drafts, i) ==> #[trigger] is_planned(
            merged_plans(notes, drafts),
            i,
        ),
        merged_plans(notes, drafts).len() <= notes.len(),
{
    drafts_are_few(drafts, notes);
    let keys = merge_keys(drafts);
    let groups = group_places(keys);
    let plans = merged_plans(notes, drafts);
    groups_partition(keys);
    assert forall|g: int| 0 <= g < groups.len() implies group_is_sound(
        notes,
        drafts,
        #[trigger] groups[g],
    ) by {
        assert forall|i: int| 0 <= i < groups[g].len() implies drafts[#[trigger] groups[g][i] as int].voice
            == drafts[groups[g][0] as int].voice by {
            assert(keys[groups[g][i] as int] == keys[groups[g][0] as int]);
        }
    }
    assert forall|p: int| 0 <= p < plans.len() implies (#[trigger] plans[p]).timeline.len() > 0
        && ascends(plans[p].timeline, entry_start(notes)) by {
        assert(group_is_sound(notes, drafts, groups[p]));
        group_length(keys, p);
        group_plan_partition(notes, drafts, groups[p]);
    }
    assert forall|p: int, t: int| 0 <= p < plans.len() && 0 <= t < plans[p].timeline.len() implies (
    #[trigger] plans[p].timeline[t]).1 < notes.len()
        && notes[plans[p].timeline[t].1 as int].event.voice == plans[p].voice by {
        assert(group_is_sound(notes, drafts, groups[p]));
        group_length(keys, p);
        group_plan_partition(notes, drafts, groups[p]);
    }
    assert forall|p: int, t: int, q: int, u: int|
        0 <= p < plans.len() && 0 <= t < plans[p].timeline.len() && 0 <= q < plans.len() && 0 <= u
            < plans[q].timeline.len() && (#[trigger] plans[p].timeline[t]).1 == (
        #[trigger] plans[q].timeline[u]).1 implies p == q && t == u by {
        assert(group_is_sound(notes, drafts, groups[p]));
        assert(group_is_sound(notes, drafts, groups[q]));
        group_length(keys, p);
        group_length(keys, q);
        group_plan_partition(notes, drafts, groups[p]);
        group_plan_partition(notes, drafts, groups[q]);
        let x = plans[p].timeline[t];
        let y = plans[q].timeline[u];
        let d = groups[p][x.0 as int] as int;
        let c = groups[q][y.0 as int] as int;
        let e = choose|e: int| 0 <= e < drafts[d].events.len() && drafts[d].events[e] == x.1;
        let f = choose|f: int| 0 <= f < drafts[c].events.len() && drafts[c].events[f] == y.1;
        assert(drafts[d].events[e] == drafts[c].events[f]);
        assert(d == c);
        assert(keys[groups[p][x.0 as int] as int] == keys[groups[p][0] as int]);
        assert(keys[groups[q][y.0 as int] as int] == keys[groups[q][0] as int]);
        if p < q {
            assert(keys[groups[p][0] as int] != keys[groups[q][0] as int]);
        }
        if q < p {
            assert(keys[groups[q][0] as int] != keys[groups[p][0] as int]);
        }
    }
    assert forall|i: int| is_drafted(drafts, i) implies #[trigger] is_planned(plans, i) by {
        let (d, e) = choose|d: int, e: int|
            0 <= d < drafts.len() && 0 <= e < drafts[d].events.len()
                && #[trigger] drafts[d].events[e] == i;
        assert(super::grouping::is_grouped(keys, d));
        let g = choose|g: int| 0 <= g < groups.len() && (#[trigger] groups[g]).contains(d as usize);
        let s = choose|s: int| 0 <= s < groups[g].len() && groups[g][s] == d as usize;
        assert(group_is_sound(notes, drafts, groups[g]));
        group_length(keys, g);
        group_plan_partition(notes, drafts, groups[g]);
        let entry = (s as usize, drafts[groups[g][s] as int].events[e]);
        assert(plans[g].timeline.contains(entry));
        let t = choose|t: int| 0 <= t < plans[g].timeline.len() && plans[g].timeline[t] == entry;
        assert(plans[g].timeline[t].1 == i);
    }
}

spec fn group_is_sound(notes: Seq<SynthNote>, drafts: Seq<DraftView>, group: Seq<usize>) -> bool {
    &&& forall|i: int| 0 <= i < group.len() ==> #[trigger] group[i] < drafts.len()
    &&& forall|i: int, j: int| 0 <= i < j < group.len() ==> #[trigger] group[i] < #[trigger] group[j]
    &&& forall|i: int|
        0 <= i < group.len() ==> drafts[#[trigger] group[i] as int].voice
            == drafts[group[0] as int].voice
}

proof fn group_length<K>(keys: Seq<K>, g: int)
    requires
        0 <= g < group_places(keys).len(),
        keys.len() <= usize::MAX,
    ensures
        0 < group_places(keys)[g].len() <= usize::MAX,
{
    groups_partition(keys);
    let f = super::grouping::first_places(keys)[g] as int;
    places_are_exact(keys.len() as int, super::grouping::has_key(keys, keys[f]));
}

/// Every note of a voice of the chip is on exactly one track, once, and on a
/// track of its own voice. No track is empty, tracks run in the order of time,
/// they stand in the order of their first notes, and instruments are numbered
/// from one without a gap, so that no two tracks share one.
pub proof fn every_note_is_planned_once(
    notes: Seq<SynthNote>,
    patches: Seq<Patch>,
    states: Seq<ProgramFrame>,
    frame_count: u32,
)
    requires
        notes.len() < u32::MAX,
        notes.len() <= usize::MAX,
    ensures
        ({
            let plans = track_plans(notes, patches, states, frame_count);
            &&& plans_are_disjoint(plans, notes)
            &&& forall|i: int|
                0 <= i < notes.len() && (#[trigger] notes[i]).event.voice.valid() ==> is_planned(
                    plans,
                    i,
                )
            &&& forall|p: int| 0 <= p < plans.len() ==> (#[trigger] plans[p]).instrument_id == p + 1
            &&& forall|p: int|
                0 <= p < plans.len() ==> ascends(
                    (#[trigger] plans[p]).timeline,
                    entry_start(notes),
                )
            &&& ascends(plans, plan_start(notes))
            &&& plans.len() <= notes.len()
        }),
{
    let drafts = all_drafts(notes, patches, states, frame_count);
    drafts_partition(notes, patches, states, frame_count);
    merged_plans_partition(notes, drafts);
    let merged = merged_plans(notes, drafts);
    let key = plan_start(notes);
    let sorted = sorted_by(merged, key);
    let plans = track_plans(notes, patches, states, frame_count);
    sorting_keeps(merged, key);
    assert forall|p: int, q: int|
        0 <= p < merged.len() && 0 <= q < merged.len() && p != q implies merged[p] != merged[q] by {
        if merged[p] == merged[q] {
            assert(merged[p].timeline.len() > 0);
            assert(merged[p].timeline[0].1 == merged[q].timeline[0].1);
        }
    }
    assert(merged.no_duplicates());
    same_items(merged, sorted);
    assert forall|p: int| 0 <= p < sorted.len() implies merged.contains(#[trigger] sorted[p]) by {
        assert(sorted.contains(sorted[p]));
    }
    assert forall|p: int| 0 <= p < plans.len() implies (#[trigger] plans[p]).timeline
        == sorted[p].timeline && plans[p].voice == sorted[p].voice && plans[p].timeline.len() > 0
        && ascends(plans[p].timeline, entry_start(notes)) by {
        let a = choose|a: int| 0 <= a < merged.len() && merged[a] == sorted[p];
        assert(merged[a].timeline.len() > 0);
    }
    assert forall|p: int, t: int| 0 <= p < plans.len() && 0 <= t < plans[p].timeline.len() implies (
    #[trigger] plans[p].timeline[t]).1 < notes.len()
        && notes[plans[p].timeline[t].1 as int].event.voice == plans[p].voice by {
        let a = choose|a: int| 0 <= a < merged.len() && merged[a] == sorted[p];
        assert(merged[a].timeline[t].1 < notes.len());
    }
    assert forall|p: int, t: int, q: int, u: int|
        0 <= p < plans.len() && 0 <= t < plans[p].timeline.len() && 0 <= q < plans.len() && 0 <= u
            < plans[q].timeline.len() && (#[trigger] plans[p].timeline[t]).1 == (
        #[trigger] plans[q].timeline[u]).1 implies p == q && t == u by {
        let a = choose|a: int| 0 <= a < merged.len() && merged[a] == sorted[p];
        let b = choose|b: int| 0 <= b < merged.len() && merged[b] == sorted[q];
        assert(merged[a].timeline[t].1 == merged[b].timeline[u].1);
        assert(a == b && t == u);
        assert(sorted[p] == sorted[q]);
    }
    assert forall|i: int|
        0 <= i < notes.len() && (#[trigger] notes[i]).event.voice.valid() implies is_planned(
        plans,
        i,
    ) by {
        assert(is_drafted(drafts, i));
        assert(is_planned(merged, i));
        let (a, t) = choose|a: int, t: int|
            0 <= a < merged.len() && 0 <= t < merged[a].timeline.len() && (
            #[trigger] merged[a].timeline[t]).1 == i;
        assert(merged.contains(merged[a]));
        assert(sorted.contains(merged[a]));
        let p = choose|p: int| 0 <= p < sorted.len() && sorted[p] == merged[a];
        assert(plans[p].timeline[t].1 == i);
    }
    assert(ascends(plans, key)) by {
        assert forall|p: int, q: int| 0 <= p <= q < plans.len() implies key(#[trigger] plans[p])
            <= key(#[trigger] plans[q]) by {
            assert(key(sorted[p]) <= key(sorted[q]));
            assert(key(plans[p]) == key(sorted[p]));
            assert(key(plans[q]) == key(sorted[q]));
        }
    }
}

/// Whether a place of a sound, and one of its profiles, exist where they are named.
pub open spec fn names_sound(patches: Seq<Patch>, patch: Option<usize>, profile: Option<usize>) -> bool {
    patch matches Some(p) ==> p < patches.len() && (profile matches Some(q) ==> q
        < patches[p as int].voices@.len())
}

spec fn draft_fits(patches: Seq<Patch>, draft: DraftView) -> bool {
    draft.voice.valid() && names_sound(patches, draft.patch, draft.profile)
}

proof fn profile_exists(s: Seq<PatchVoiceProfile>, voice: VoiceId, i: int)
    ensures
        first_profile(s, voice, i) matches Some(q) ==> 0 <= q < s.len(),
    decreases s.len() - i,
{
    if 0 <= i < s.len() {
        profile_exists(s, voice, i + 1);
    }
}

proof fn drafts_fit(
    notes: Seq<SynthNote>,
    patches: Seq<Patch>,
    states: Seq<ProgramFrame>,
    frame_count: u32,
    voice: VoiceId,
    d: int,
)
    requires
        voice.valid(),
        0 <= d < voice_drafts(notes, patches, states, frame_count, voice).len(),
    ensures
        draft_fits(patches, voice_drafts(notes, patches, states, frame_count, voice)[d]),
{
    let draft = voice_drafts(notes, patches, states, frame_count, voice)[d];
    if let Some(p) = draft.patch {
        let sound = patches[p as int];
        profile_exists(sound.voices@, voice, 0);
        assert(sound.voices.len() == sound.voices@.len());
    }
}

spec fn plan_fits(patches: Seq<Patch>, plan: PlanView) -> bool {
    &&& plan.voice.valid()
    &&& forall|s: int|
        0 <= s < plan.segments.len() ==> names_sound(
            patches,
            (#[trigger] plan.segments[s]).patch,
            plan.segments[s].profile,
        )
    &&& forall|t: int|
        0 <= t < plan.timeline.len() ==> (#[trigger] plan.timeline[t]).0 < plan.segments.len()
}

proof fn group_plan_fits(
    notes: Seq<SynthNote>,
    patches: Seq<Patch>,
    drafts: Seq<DraftView>,
    group: Seq<usize>,
)
    requires
        0 < group.len() <= usize::MAX,
        forall|i: int| 0 <= i < group.len() ==> #[trigger] group[i] < drafts.len(),
        forall|d: int| 0 <= d < drafts.len() ==> draft_fits(patches, #[trigger] drafts[d]),
    ensures
        plan_fits(patches, group_plan(notes, drafts, group)),
{
    let plan = group_plan(notes, drafts, group);
    let es = entries(plan.segments);
    assert(draft_fits(patches, drafts[group[0] as int]));
    assert forall|s: int| 0 <= s < plan.segments.len() implies names_sound(
        patches,
        (#[trigger] plan.segments[s]).patch,
        plan.segments[s].profile,
    ) by {
        assert(draft_fits(patches, drafts[group[s] as int]));
    }
    sorting_keeps(es, entry_start(notes));
    same_items(es, plan.timeline);
    assert forall|t: int| 0 <= t < plan.timeline.len() implies (#[trigger] plan.timeline[t]).0
        < plan.segments.len() by {
        assert(plan.timeline.contains(plan.timeline[t]));
        assert(es.contains(plan.timeline[t]));
        let k = choose|k: int| 0 <= k < es.len() && es[k] == plan.timeline[t];
        entries_name(plan.segments, k);
    }
}

proof fn all_drafts_fit(
    notes: Seq<SynthNote>,
    patches: Seq<Patch>,
    states: Seq<ProgramFrame>,
    frame_count: u32,
)
    ensures
        forall|d: int|
            0 <= d < all_drafts(notes, patches, states, frame_count).len() ==> draft_fits(
                patches,
                #[trigger] all_drafts(notes, patches, states, frame_count)[d],
            ),
{
    let drafts = all_drafts(notes, patches, states, frame_count);
    let a = voice_drafts(notes, patches, states, frame_count, VoiceId(1)).len();
    let b = voice_drafts(notes, patches, states, frame_count, VoiceId(2)).len();
    assert forall|d: int| 0 <= d < drafts.len() implies draft_fits(patches, #[trigger] drafts[d]) by {
        if d < a {
            drafts_fit(notes, patches, states, frame_count, VoiceId(1), d);
        } else if d < a + b {
            drafts_fit(notes, patches, states, frame_count, VoiceId(2), d - a);
        } else {
            drafts_fit(notes, patches, states, frame_count, VoiceId(3), d - a - b);
        }
    }
}

proof fn plan_views_fit(
    notes: Seq<SynthNote>,
    patches: Seq<Patch>,
    states: Seq<ProgramFrame>,
    frame_count: u32,
)
    requires
        notes.len() <= usize::MAX,
    ensures
        forall|p: int|
            0 <= p < track_plans(notes, patches, states, frame_count).len() ==> plan_fits(
                patches,
                #[trigger] track_plans(notes, patches, states, frame_count)[p],
            ),
{
    let drafts = all_drafts(notes, patches, states, frame_count);
    drafts_partition(notes, patches, states, frame_count);
    drafts_are_few(drafts, notes);
    all_drafts_fit(notes, patches, states, frame_count);
    let keys = merge_keys(drafts);
    let groups = group_places(keys);
    let merged = merged_plans(notes, drafts);
    let sorted = sorted_by(merged, plan_start(notes));
    let plans = track_plans(notes, patches, states, frame_count);
    groups_partition(keys);
    sorting_keeps(merged, plan_start(notes));
    same_items(merged, sorted);
    assert forall|p: int| 0 <= p < plans.len() implies plan_fits(patches, #[trigger] plans[p]) by {
        assert(sorted.contains(sorted[p]));
        assert(merged.contains(sorted[p]));
        let g = choose|g: int| 0 <= g < merged.len() && merged[g] == sorted[p];
        group_length(keys, g);
        group_plan_fits(notes, patches, drafts, groups[g]);
        assert(plan_fits(patches, merged[g]));
    }
}

/// The tracks of a tune fit it: each is of a voice of the chip, and names notes,
/// sounds and profiles that exist, and segments of its own.
pub proof fn planned_tracks_fit(
    notes: Seq<SynthNote>,
    patches: Seq<Patch>,
    states: Seq<ProgramFrame>,
    frame_count: u32,
    plans: Seq<TrackPlan>,
)
    requires
        notes.len() < u32::MAX,
        notes.len() <= usize::MAX,
        plan_views(plans) == track_plans(notes, patches, states, frame_count),
    ensures
        plans_fit(plans, notes),
        forall|p: int|
            0 <= p < plans.len() ==> segments_fit((#[trigger] plans[p]).segments@, patches),
        forall|p: int, t: int|
            0 <= p < plans.len() && 0 <= t < plans[p].timeline@.len() ==> (
            #[trigger] plans[p].timeline@[t]).0 < plans[p].segments@.len(),
{
    let views = track_plans(notes, patches, states, frame_count);
    every_note_is_planned_once(notes, patches, states, frame_count);
    plan_views_fit(notes, patches, states, frame_count);
    assert forall|p: int| 0 <= p < plans.len() implies views[p] == (#[trigger] plans[p]).view() by {
        assert(plan_views(plans)[p] == plans[p].view());
    }
    assert forall|p: int| 0 <= p < plans.len() implies segments_fit(
        (#[trigger] plans[p]).segments@,
        patches,
    ) by {
        assert(plan_fits(patches, views[p]));
        assert forall|s: int| 0 <= s < plans[p].segments@.len() implies names_sound(
            patches,
            (#[trigger] plans[p].segments@[s]).patch,
            plans[p].segments@[s].profile,
        ) by {
            assert(views[p].segments[s] == plans[p].segments@[s].view());
        }
    }
    assert forall|p: int, t: int|
        0 <= p < plans.len() && 0 <= t < plans[p].timeline@.len() implies (
    #[trigger] plans[p].timeline@[t]).0 < plans[p].segments@.len() by {
        assert(plan_fits(patches, views[p]));
        assert(views[p].timeline[t].0 < views[p].segments.len());
    }
    assert forall|p: int| 0 <= p < plans.len() implies (#[trigger] plans[p]).voice.valid()
        && timeline_fits(plans[p].timeline@, notes) by {
        assert(plan_fits(patches, views[p]));
        assert forall|t: int| 0 <= t < plans[p].timeline@.len() implies (
        #[trigger] plans[p].timeline@[t]).1 < notes.len()
            && notes[plans[p].timeline@[t].1 as int].event.voice.valid() by {
            assert(views[p].timeline[t].1 < notes.len());
        }
    }
}

/// Puts the notes of a tune on tracks. Notes of one voice share a track where
/// their sounds have the same shape.
pub fn build_track_plans(
    notes: &[SynthNote],
    patches: &[Patch],
    states: &[ProgramFrame],
    frame_count: u32,
) -> (r: Vec<TrackPlan>)
    requires
        notes@.len() < u32::MAX,
        programs_fit(notes@),
    ensures
        plan_views(r@) == track_plans(notes@, patches@, states@, frame_count),
        plans_fit(r@, notes@),
        forall|p: int| 0 <= p < r@.len() ==> segments_fit((#[trigger] r@[p]).segments@, patches@),
{
    let len: usize = notes.len();
    let mut drafts: Vec<Draft> = Vec::new();
    assert(draft_views(drafts@) =~= Seq::<DraftView>::empty());
    push_voice_drafts(notes, patches, states, frame_count, VoiceId(1), &mut drafts);
    push_voice_drafts(notes, patches, states, frame_count, VoiceId(2), &mut drafts);
    push_voice_drafts(notes, patches, states, frame_count, VoiceId(3), &mut drafts);
    let ghost views = draft_views(drafts@);
    proof {
        assert(views =~= all_drafts(notes@, patches@, states@, frame_count));
        drafts_partition(notes@, patches@, states@, frame_count);
        merged_plans_partition(notes@, views);
        drafts_are_few(views, notes@);
    }
    let keys: Vec<MergeKey> = collect_merge_keys(drafts.as_slice());
    let ghost plain = merge_keys(views);
    proof {
        groups_partition(plain);
    }
    let groups: Vec<Vec<usize>> = group_by_key(keys.as_slice());
    let ghost wanted = group_places(plain);
    let ghost merged = merged_plans(notes@, views);
    let ghost key = plan_start(notes@);
    let mut sorted: Vec<TrackPlan> = Vec::new();
    let mut g: usize = 0;
    assert(merged.take(0) =~= Seq::<PlanView>::empty());
    assert(plan_views(sorted@) =~= Seq::<PlanView>::empty());
    while g < groups.len()
        invariant
            g <= groups@.len(),
            views == draft_views(drafts@),
            drafts_are_disjoint(views, notes@),
            plain == merge_keys(views),
            wanted == group_places(plain),
            merged == merged_plans(notes@, views),
            key == plan_start(notes@),
            groups@.len() == wanted.len(),
            forall|h: int| 0 <= h < groups@.len() ==> (#[trigger] groups@[h])@ == wanted[h],
            forall|h: int| 0 <= h < wanted.len() ==> (#[trigger] wanted[h]).len() > 0,
            forall|h: int, i: int|
                0 <= h < wanted.len() && 0 <= i < wanted[h].len() ==> #[trigger] wanted[h][i]
                    < plain.len(),
            plan_views(sorted@) == sorted_by(merged.take(g as int), key),
            forall|i: int|
                0 <= i < sorted@.len() ==> (#[trigger] sorted@[i]).timeline@.len() > 0
                    ==> sorted@[i].timeline@[0].1 < notes@.len(),
        decreases groups@.len() - g,
    {
        assert(groups@[g as int]@ == wanted[g as int]);
        let group: &Vec<usize> = &groups[g];
        let plan: TrackPlan = plan_group(notes, drafts.as_slice(), group.as_slice());
        let size: usize = group.len();
        proof {
            assert(size == wanted[g as int].len());
            group_plan_names_notes(notes@, views, wanted[g as int]);
            assert(plan.view() == merged[g as int]);
            assert(merged.take(g + 1).drop_last() =~= merged.take(g as int));
            assert(plan.view().timeline == plan.timeline@);
        }
        insert_plan(notes, &mut sorted, plan);
        g += 1;
    }
    assert(merged.take(merged.len() as int) =~= merged);
    let ghost in_order = sorted_by(merged, key);
    proof {
        sorting_keeps(merged, key);
    }
    let mut out: Vec<TrackPlan> = Vec::new();
    let count: usize = sorted.len();
    let mut i: usize = 0;
    while i < count
        invariant
            i <= count,
            count == in_order.len(),
            count < u32::MAX,
            sorted@.len() == count - i,
            out@.len() == i,
            forall|j: int|
                0 <= j < sorted@.len() ==> (#[trigger] sorted@[j]).view() == in_order[i + j],
            forall|j: int|
                0 <= j < i ==> (#[trigger] out@[j]).view() == (PlanView {
                    instrument_id: (j + 1) as u32,
                    ..in_order[j]
                }),
        decreases count - i,
    {
        let ghost rest = sorted@;
        let mut plan: TrackPlan = sorted.remove(0);
        proof {
            assert(plan.view() == in_order[i + 0]);
            assert forall|j: int| 0 <= j < sorted@.len() implies (#[trigger] sorted@[j]).view()
                == in_order[i + 1 + j] by {
                assert(sorted@[j] == rest[j + 1]);
            }
        }
        plan.instrument_id = i as u32 + 1;
        out.push(plan);
        i += 1;
    }
    assert(plan_views(out@) =~= track_plans(notes@, patches@, states@, frame_count));
    proof {
        planned_tracks_fit(notes@, patches@, states@, frame_count, out@);
    }
    out
}

/// Whether a draft plays a note as what the note is: a drum drop as one, and any other note
/// with the sound that it was clustered into and with its program.
spec fn plays_as(
    d: DraftView,
    note: SynthNote,
    patches: Seq<Patch>,
    states: Seq<ProgramFrame>,
    frame_count: u32,
) -> bool {
    &&& d.drum_drop <==> drum_body(note.event, states, note.has_vibrato, frame_count) is Some
    &&& d.drum_drop ==> !d.mergeable
    &&& !d.drum_drop && note.patch_id is Some ==> {
        let k = note.patch_id->0;
        &&& k < patches.len() && patches[k as int].id == k ==> d.patch == Some(k as usize)
        &&& !(k < patches.len() && patches[k as int].id == k) ==> d.patch is None
        &&& d.waveform_program == note_program(note)
        &&& d.profile matches Some(q) ==> {
            &&& d.shape == shape(
                Some(patches[k as int]),
                Some(patches[k as int].voices@[q as int]),
                note_program(note),
            )
            &&& q < patches[k as int].voices@.len()
            &&& patches[k as int].voices@[q as int].voice == d.voice
        }
    }
    &&& !d.drum_drop && note.patch_id is None && note.characteristics is None ==> d.patch is None
        && d.waveform_program is None
    &&& d.profile is None && !d.drum_drop ==> d.shape.waveform == super::timbre::Waveform::Pulse
        && !d.shape.is_noise && !d.mergeable
}

proof fn profile_is_of_its_voice(s: Seq<PatchVoiceProfile>, voice: VoiceId, i: int)
    requires
        0 <= i <= s.len(),
    ensures
        first_profile(s, voice, i) matches Some(x) ==> i <= x < s.len() && s[x].voice == voice,
    decreases s.len() - i,
{
    if i < s.len() && s[i].voice != voice {
        profile_is_of_its_voice(s, voice, i + 1);
    }
}

proof fn voice_drafts_play_their_notes(
    notes: Seq<SynthNote>,
    patches: Seq<Patch>,
    states: Seq<ProgramFrame>,
    frame_count: u32,
    voice: VoiceId,
    d: int,
    e: int,
)
    requires
        notes.len() <= usize::MAX,
        forall|x: int|
            0 <= x < patches.len() ==> (#[trigger] patches[x]).voices@.len() <= usize::MAX,
        0 <= d < voice_drafts(notes, patches, states, frame_count, voice).len(),
        0 <= e < voice_drafts(notes, patches, states, frame_count, voice)[d].events.len(),
    ensures
        ({
            let draft = voice_drafts(notes, patches, states, frame_count, voice)[d];
            plays_as(draft, notes[draft.events[e] as int], patches, states, frame_count)
        }),
{
    let n = notes.len() as int;
    let tonal = plays_on(notes, states, frame_count, voice, false);
    let drum = plays_on(notes, states, frame_count, voice, true);
    let m = voice_notes(notes, states, frame_count, voice, false);
    let ds = voice_notes(notes, states, frame_count, voice, true);
    places_are_exact(n, tonal);
    places_are_exact(n, drum);
    let keys = sound_keys(notes, patches, voice, m);
    let groups = group_places(keys);
    groups_partition(keys);
    let draft = voice_drafts(notes, patches, states, frame_count, voice)[d];
    if d < groups.len() {
        let x = groups[d][e];
        assert(keys[x as int] == keys[groups[d][0] as int]);
        assert(draft.events[e] == m[x as int]);
        assert(tonal(m[x as int] as int));
        let note = notes[m[x as int] as int];
        let patch = key_patch(patches, keys[groups[d][0] as int]);
        if patch is Some {
            profile_is_of_its_voice(patches[patch->0 as int].voices@, voice, 0);
        }
    } else {
        assert(drum(ds[e] as int));
    }
}

proof fn drafts_play_their_notes(
    notes: Seq<SynthNote>,
    patches: Seq<Patch>,
    states: Seq<ProgramFrame>,
    frame_count: u32,
    d: int,
    e: int,
)
    requires
        notes.len() <= usize::MAX,
        forall|x: int|
            0 <= x < patches.len() ==> (#[trigger] patches[x]).voices@.len() <= usize::MAX,
        0 <= d < all_drafts(notes, patches, states, frame_count).len(),
        0 <= e < all_drafts(notes, patches, states, frame_count)[d].events.len(),
    ensures
        ({
            let draft = all_drafts(notes, patches, states, frame_count)[d];
            plays_as(draft, notes[draft.events[e] as int], patches, states, frame_count)
        }),
{
    let a = voice_drafts(notes, patches, states, frame_count, VoiceId(1));
    let b = voice_drafts(notes, patches, states, frame_count, VoiceId(2));
    if d < a.len() {
        voice_drafts_play_their_notes(notes, patches, states, frame_count, VoiceId(1), d, e);
    } else if d < a.len() + b.len() {
        voice_drafts_play_their_notes(
            notes,
            patches,
            states,
            frame_count,
            VoiceId(2),
            d - a.len(),
            e,
        );
    } else {
        voice_drafts_play_their_notes(
            notes,
            patches,
            states,
            frame_count,
            VoiceId(3),
            d - a.len() - b.len(),
            e,
        );
    }
}

/// Every note of a track is played as what it is. A drum drop is on a track of drum drops,
/// and any other note on a track of the sound that it was clustered into: the segment of the
/// note names that sound, the track has its shape, and with it its waveforms.
pub proof fn tracks_play_the_sound_of_their_notes(
    notes: Seq<SynthNote>,
    patches: Seq<Patch>,
    states: Seq<ProgramFrame>,
    frame_count: u32,
    p: int,
    t: int,
)
    requires
        notes.len() < u32::MAX,
        notes.len() <= usize::MAX,
        forall|x: int|
            0 <= x < patches.len() ==> (#[trigger] patches[x]).voices@.len() <= usize::MAX,
        0 <= p < track_plans(notes, patches, states, frame_count).len(),
        0 <= t < track_plans(notes, patches, states, frame_count)[p].timeline.len(),
    ensures
        ({
            let plan = track_plans(notes, patches, states, frame_count)[p];
            let s = plan.timeline[t].0 as int;
            let note = notes[plan.timeline[t].1 as int];
            let segment = plan.segments[s];
            &&& s < plan.segments.len()
            &&& segment.events.contains(plan.timeline[t].1)
            &&& plan.drum_drop <==> drum_body(
                note.event,
                states,
                note.has_vibrato,
                frame_count,
            ) is Some
            &&& !plan.drum_drop && note.patch_id is Some ==> {
                let k = note.patch_id->0;
                &&& k < patches.len() && patches[k as int].id == k ==> segment.patch == Some(
                    k as usize,
                )
                &&& !(k < patches.len() && patches[k as int].id == k) ==> segment.patch is None
                &&& segment.profile matches Some(q) ==> {
                    &&& q < patches[k as int].voices@.len()
                    &&& patches[k as int].voices@[q as int].voice == plan.voice
                    &&& plan.shape == shape(
                        Some(patches[k as int]),
                        Some(patches[k as int].voices@[q as int]),
                        note_program(note),
                    )
                }
            }
            &&& !plan.drum_drop && note.patch_id is None && note.characteristics is None
                ==> segment.patch is None
            &&& segment.profile is None && !plan.drum_drop ==> plan.shape.waveform
                == super::timbre::Waveform::Pulse && !plan.shape.is_noise
        }),
{
    let drafts = all_drafts(notes, patches, states, frame_count);
    drafts_partition(notes, patches, states, frame_count);
    drafts_are_few(drafts, notes);
    let keys = merge_keys(drafts);
    let groups = group_places(keys);
    groups_partition(keys);
    let merged = merged_plans(notes, drafts);
    let key = plan_start(notes);
    let sorted = sorted_by(merged, key);
    let plans = track_plans(notes, patches, states, frame_count);
    sorting_keeps(merged, key);
    same_items(merged, sorted);
    assert(sorted.contains(sorted[p]));
    assert(merged.contains(sorted[p]));
    let g = choose|g: int| 0 <= g < merged.len() && merged[g] == sorted[p];
    let group = groups[g];
    let plan = merged[g];
    assert(plan == group_plan(notes, drafts, group));
    let segments = group_segments(drafts, group);
    group_length(keys, g);
    sorting_keeps(entries(segments), entry_start(notes));
    same_items(plan.timeline, entries(segments));
    assert(plan.timeline.contains(plan.timeline[t]));
    let x = choose|x: int|
        0 <= x < entries(segments).len() && entries(segments)[x] == plan.timeline[t];
    entries_name(segments, x);
    let s = plan.timeline[t].0 as int;
    let e = choose|e: int|
        0 <= e < segments[s].events.len() && segments[s].events[e] == plan.timeline[t].1;
    let d = group[s] as int;
    let first = group[0] as int;
    assert(keys[d] == keys[first]);
    assert(drafts[d].events[e] == plan.timeline[t].1);
    drafts_play_their_notes(notes, patches, states, frame_count, d, e);
    assert(drafts[first].events.len() > 0);
    drafts_play_their_notes(notes, patches, states, frame_count, first, 0);
    if !drafts[d].mergeable || !drafts[first].mergeable {
        assert(keys[d].2 == keys[first].2);
        assert(d == first);
    }
    assert(drafts[d].shape == drafts[first].shape);
    assert(drafts[d].voice == drafts[first].voice);
}

/// Notes of a voice that were clustered into the same sound and have the same program share
/// a draft, and a draft holds no other notes that were clustered.
pub proof fn notes_of_a_sound_share_a_draft(
    notes: Seq<SynthNote>,
    patches: Seq<Patch>,
    voice: VoiceId,
    m: Seq<usize>,
    i: usize,
    j: usize,
)
    requires
        notes[i as int].patch_id is Some,
        notes[j as int].patch_id is Some,
    ensures
        sound_key(notes, patches, voice, m, i) == sound_key(notes, patches, voice, m, j)
            <==> notes[i as int].patch_id == notes[j as int].patch_id && note_program(
            notes[i as int],
        ) == note_program(notes[j as int]),
{
}

/// Tracks are shared only by sounds of the same voice and shape that may be merged: a sound
/// without a profile, or with an arpeggio of more than 64 steps, keeps a track of its own.
pub proof fn only_mergeable_sounds_share_a_track(drafts: Seq<DraftView>, a: int, b: int)
    requires
        0 <= a < drafts.len() <= usize::MAX,
        0 <= b < drafts.len(),
        a != b,
    ensures
        merge_keys(drafts)[a] == merge_keys(drafts)[b] <==> drafts[a].mergeable && drafts[b].mergeable
            && drafts[a].voice == drafts[b].voice && drafts[a].shape == drafts[b].shape,
{
}

} // verus!
