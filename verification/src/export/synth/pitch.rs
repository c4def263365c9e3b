//! The pitches that a voice holds while it is gated.

use crate::analysis::frame::{freq_at, NoteEvent, ProgramFrame};
use super::articulation::{authored_end, authored_note_end_frame};
use vstd::prelude::*;

verus! {

/// How long a pitch has to be held to become a note of its own.
pub const MIN_LEGATO_FRAMES: u32 = 4;

/// How far a glide may take a note from its own pitch, in semitones.
pub const MAX_ONSET_GLIDE_SEMITONES: i32 = 12;

/// A pitch held from `start` on for `len` frames; none if the voice is silent.
#[derive(Debug, Clone, Copy, PartialEq, Eq, Structural)]
pub struct Plateau {
    pub start: u32,
    pub len: u32,
    pub pitch: Option<u8>,
}

/// The pitch of a voice at a frame; none past the end or for silence.
pub open spec fn pitch_at(states: Seq<ProgramFrame>, v: int, f: int) -> Option<u8> {
    if 0 <= f < states.len() && states[f].voices@[v].freq != 0 {
        states[f].voices@[v].pitch
    } else {
        None
    }
}

/// The pitch of a voice at a frame; none past the end or for silence.
pub fn frame_pitch(states: &[ProgramFrame], voice_index: usize, f: u32) -> (r: Option<u8>)
    requires
        voice_index < 3,
    ensures
        r == pitch_at(states@, voice_index as int, f as int),
{
    match freq_at(states, voice_index, f) {
        Some(_) => states[f as usize].voices[voice_index].pitch,
        None => None,
    }
}

/// The pitch heard at the last of some frames: silence carries the previous
/// pitch on.
pub open spec fn carried_pitch(pitches: Seq<Option<u8>>) -> Option<u8>
    decreases pitches.len(),
{
    if pitches.len() == 0 {
        None
    } else if pitches.last() is Some {
        pitches.last()
    } else {
        carried_pitch(pitches.drop_last())
    }
}

/// The runs of equal pitch over some frames, the first of which is `start`.
pub open spec fn pitch_runs(pitches: Seq<Option<u8>>, start: int) -> Seq<Plateau>
    decreases pitches.len(),
{
    if pitches.len() == 0 {
        Seq::empty()
    } else {
        let before = pitch_runs(pitches.drop_last(), start);
        match carried_pitch(pitches) {
            None => before,
            Some(p) => if before.len() > 0 && before.last().pitch == Some(p) {
                let run = before.last();
                before.drop_last().push(Plateau { len: (run.len + 1) as u32, ..run })
            } else {
                before.push(
                    Plateau { start: (start + pitches.len() - 1) as u32, len: 1, pitch: Some(p) },
                )
            },
        }
    }
}

/// The pitches of a voice from `start` up to `end`.
pub open spec fn voice_pitches(states: Seq<ProgramFrame>, v: int, start: int, end: int) -> Seq<
    Option<u8>,
> {
    Seq::new(
        if start < end {
            (end - start) as nat
        } else {
            0
        },
        |j: int| pitch_at(states, v, start + j),
    )
}

/// The places of the runs that last long enough to be notes.
pub open spec fn anchors(runs: Seq<Plateau>) -> Seq<int>
    decreases runs.len(),
{
    if runs.len() == 0 {
        Seq::empty()
    } else if runs.last().len >= MIN_LEGATO_FRAMES {
        anchors(runs.drop_last()).push(runs.len() - 1)
    } else {
        anchors(runs.drop_last())
    }
}

/// The place of the longest run, the last one of several.
pub open spec fn longest(runs: Seq<Plateau>) -> int
    decreases runs.len(),
{
    if runs.len() <= 1 {
        0
    } else {
        let before = longest(runs.drop_last());
        if runs.last().len >= runs[before].len {
            runs.len() - 1
        } else {
            before
        }
    }
}

/// The note of the `k`th anchor: it runs to the next anchor, and the first one
/// begins at the start.
pub open spec fn anchor_note(runs: Seq<Plateau>, a: Seq<int>, k: int, start: int, end: int) -> Plateau {
    let from = if k == 0 {
        start
    } else {
        runs[a[k]].start as int
    };
    let to = if k + 1 < a.len() {
        runs[a[k + 1]].start as int
    } else {
        end
    };
    Plateau { start: from as u32, len: (to - from) as u32, pitch: runs[a[k]].pitch }
}

/// The sustained pitches of a gated note. With fewer than two of them the note
/// is one plateau at its longest pitch, or a silent one if it has no pitch. Only a
/// note without frames has no plateau.
pub open spec fn plateaus(states: Seq<ProgramFrame>, v: int, start: int, end: int) -> Seq<Plateau> {
    let runs = pitch_runs(voice_pitches(states, v, start, end), start);
    let a = anchors(runs);
    if start >= end {
        Seq::empty()
    } else if a.len() < 2 {
        seq![
            Plateau {
                start: start as u32,
                len: (end - start) as u32,
                pitch: if runs.len() > 0 {
                    runs[longest(runs)].pitch
                } else {
                    None
                },
            },
        ]
    } else {
        Seq::new(a.len(), |k: int| anchor_note(runs, a, k, start, end))
    }
}

/// Runs lie one behind the other, and together cover everything from the first
/// pitch to the end.
pub proof fn runs_are_contiguous(pitches: Seq<Option<u8>>, start: int)
    requires
        0 <= start,
        start + pitches.len() <= u32::MAX,
    ensures
        ({
            let runs = pitch_runs(pitches, start);
            &&& forall|i: int|
                0 <= i < runs.len() ==> (#[trigger] runs[i]).len > 0 && runs[i].start >= start
                    && runs[i].pitch is Some
            &&& forall|i: int, j: int|
                0 <= i < j < runs.len() ==> (#[trigger] runs[i]).start + runs[i].len <= (
                #[trigger] runs[j]).start
            &&& runs.len() > 0 ==> runs.last().start + runs.last().len == start + pitches.len()
            &&& runs.len() > 0 <==> carried_pitch(pitches) is Some
            &&& runs.len() <= pitches.len()
        }),
    decreases pitches.len(),
{
    if pitches.len() > 0 {
        runs_are_contiguous(pitches.drop_last(), start);
    }
}

proof fn anchors_ascend(runs: Seq<Plateau>)
    ensures
        forall|k: int|
            0 <= k < anchors(runs).len() ==> 0 <= #[trigger] anchors(runs)[k] < runs.len()
                && runs[anchors(runs)[k]].len >= MIN_LEGATO_FRAMES,
        forall|k: int, l: int|
            0 <= k < l < anchors(runs).len() ==> #[trigger] anchors(runs)[k]
                < #[trigger] anchors(runs)[l],
        forall|i: int|
            0 <= i < runs.len() && (#[trigger] runs[i]).len >= MIN_LEGATO_FRAMES ==> anchors(
                runs,
            ).contains(i),
    decreases runs.len(),
{
    if runs.len() > 0 {
        let t = runs.drop_last();
        anchors_ascend(t);
        let a = anchors(t);
        let b = anchors(runs);
        assert forall|i: int|
            0 <= i < runs.len() && (#[trigger] runs[i]).len
                >= MIN_LEGATO_FRAMES implies b.contains(i) by {
            if i < t.len() {
                assert(t[i] == runs[i]);
                let k = choose|k: int| 0 <= k < a.len() && a[k] == i;
                assert(b[k] == i);
            } else {
                assert(b[b.len() - 1] == i);
            }
        }
        assert forall|k: int| 0 <= k < b.len() implies 0 <= #[trigger] b[k] < runs.len()
            && runs[b[k]].len >= MIN_LEGATO_FRAMES by {
            if k < a.len() {
                assert(t[a[k]] == runs[a[k]]);
            }
        }
    }
}

proof fn longest_bounds(runs: Seq<Plateau>)
    requires
        runs.len() > 0,
    ensures
        0 <= longest(runs) < runs.len(),
        forall|i: int| 0 <= i < runs.len() ==> (#[trigger] runs[i]).len <= runs[longest(runs)].len,
    decreases runs.len(),
{
    if runs.len() > 1 {
        let t = runs.drop_last();
        longest_bounds(t);
        assert forall|i: int| 0 <= i < runs.len() implies (#[trigger] runs[i]).len <= runs[longest(
            runs,
        )].len by {
            if i < t.len() {
                assert(t[i] == runs[i]);
            }
        }
    }
}

/// The plateaus of a note tile it: the first begins where the note begins, each
/// begins where the one before it ends, and the last ends where the note ends.
/// A note with frames has at least one, and of several each is long enough to be a
/// note of its own and has a pitch. Only a silent note has a plateau without pitch.
pub proof fn plateaus_tile_the_note(states: Seq<ProgramFrame>, v: int, start: int, end: int)
    requires
        0 <= start <= end <= u32::MAX,
    ensures
        ({
            let p = plateaus(states, v, start, end);
            &&& p.len() >= 1 <==> start < end
            &&& p.len() >= 1 ==> p[0].start == start && p.last().start + p.last().len == end
            &&& forall|k: int| 0 <= k < p.len() ==> (#[trigger] p[k]).len > 0
            &&& forall|k: int|
                0 <= k < p.len() - 1 ==> (#[trigger] p[k]).start + p[k].len == p[k + 1].start
            &&& p.len() >= 2 ==> forall|k: int|
                0 <= k < p.len() ==> (#[trigger] p[k]).len >= MIN_LEGATO_FRAMES
                    && p[k].pitch is Some
            &&& forall|k: int|
                0 <= k < p.len() ==> ((#[trigger] p[k]).pitch is Some <==> carried_pitch(
                    voice_pitches(states, v, start, end),
                ) is Some)
        }),
{
    let runs = pitch_runs(voice_pitches(states, v, start, end), start);
    let a = anchors(runs);
    let p = plateaus(states, v, start, end);
    runs_are_contiguous(voice_pitches(states, v, start, end), start);
    anchors_ascend(runs);
    if runs.len() > 0 {
        longest_bounds(runs);
    }
    if a.len() >= 2 {
        assert(0 <= a[0] < runs.len());
        assert forall|k: int| 0 <= k < p.len() implies (#[trigger] p[k]).len >= MIN_LEGATO_FRAMES
            && p[k].pitch is Some && p[k].start + p[k].len == (if k + 1 < p.len() {
            p[k + 1].start as int
        } else {
            end
        }) by {
            assert(0 <= a[k] < runs.len());
            if k + 1 < a.len() {
                assert(a[k] < a[k + 1]);
                assert(runs[a[k]].start + runs[a[k]].len <= runs[a[k + 1]].start);
            } else {
                if a[k] < runs.len() - 1 {
                    assert(runs[a[k]].start + runs[a[k]].len <= runs[runs.len() - 1].start);
                }
            }
            if k == 0 {
                assert(runs[a[0]].start >= start);
            }
        }
    }
}

/// Every plateau of a legato run is a pitch that was really held: there is one
/// for each run of at least the legato length, and for no other.
pub proof fn legato_plateaus_are_sustained(
    states: Seq<ProgramFrame>,
    v: int,
    start: int,
    end: int,
    k: int,
)
    requires
        0 <= start <= end <= u32::MAX,
        plateaus(states, v, start, end).len() >= 2,
        0 <= k < plateaus(states, v, start, end).len(),
    ensures
        plateaus(states, v, start, end).len() == anchors(
            pitch_runs(voice_pitches(states, v, start, end), start),
        ).len(),
        ({
            let runs = pitch_runs(voice_pitches(states, v, start, end), start);
            let i = anchors(runs)[k];
            0 <= i < runs.len() && runs[i].len >= MIN_LEGATO_FRAMES && runs[i].pitch == plateaus(
                states,
                v,
                start,
                end,
            )[k].pitch
        }),
{
    anchors_ascend(pitch_runs(voice_pitches(states, v, start, end), start));
}

/// The pitches of a voice from `start` up to `end`.
pub fn collect_pitches(states: &[ProgramFrame], voice_index: usize, start: u32, end: u32) -> (r: Vec<
    Option<u8>,
>)
    requires
        voice_index < 3,
    ensures
        r@ == voice_pitches(states@, voice_index as int, start as int, end as int),
{
    let mut pitches: Vec<Option<u8>> = Vec::new();
    let mut f: u32 = start;
    while f < end
        invariant
            voice_index < 3,
            start <= f,
            start <= end ==> f <= end,
            start > end ==> f == start,
            pitches@.len() == f - start,
            forall|j: int|
                0 <= j < f - start ==> #[trigger] pitches@[j] == pitch_at(
                    states@,
                    voice_index as int,
                    start + j,
                ),
        decreases end - f,
    {
        pitches.push(frame_pitch(states, voice_index, f));
        f += 1;
    }
    assert(pitches@ =~= voice_pitches(states@, voice_index as int, start as int, end as int));
    pitches
}

/// The runs of equal pitch over some frames.
pub fn find_runs(pitches: &[Option<u8>], start: u32) -> (r: Vec<Plateau>)
    requires
        start + pitches@.len() <= u32::MAX,
    ensures
        r@ == pitch_runs(pitches@, start as int),
{
    let ghost all = pitches@;
    let mut runs: Vec<Plateau> = Vec::new();
    let mut carried: Option<u8> = None;
    let mut i: usize = 0;
    assert(all.take(0) =~= Seq::<Option<u8>>::empty());
    while i < pitches.len()
        invariant
            all == pitches@,
            start + all.len() <= u32::MAX,
            i <= all.len(),
            runs@ == pitch_runs(all.take(i as int), start as int),
            carried == carried_pitch(all.take(i as int)),
        decreases all.len() - i,
    {
        proof {
            runs_are_contiguous(all.take(i as int), start as int);
            assert(all.take(i + 1).drop_last() =~= all.take(i as int));
        }
        let here: Option<u8> = pitches[i];
        if here.is_some() {
            carried = here;
        }
        if carried.is_some() {
            let extends: bool = match runs.last() {
                Some(run) => run.pitch == carried,
                None => false,
            };
            if extends {
                if let Some(run) = runs.pop() {
                    runs.push(Plateau { start: run.start, len: run.len + 1, pitch: run.pitch });
                }
            } else {
                runs.push(Plateau { start: start + i as u32, len: 1, pitch: carried });
            }
        }
        i += 1;
    }
    assert(all.take(all.len() as int) =~= all);
    runs
}

/// Splits a gated note into the sustained pitches that it steps through.
pub fn pitch_plateaus(states: &[ProgramFrame], voice_index: usize, start: u32, end: u32) -> (r: Vec<
    Plateau,
>)
    requires
        voice_index < 3,
    ensures
        r@ == plateaus(states@, voice_index as int, start as int, end as int),
        start < end <==> r@.len() >= 1,
{
    let ghost s = states@;
    let ghost v = voice_index as int;
    let pitches: Vec<Option<u8>> = collect_pitches(states, voice_index, start, end);
    let runs: Vec<Plateau> = find_runs(pitches.as_slice(), start);
    proof {
        runs_are_contiguous(pitches@, start as int);
        if start <= end {
            plateaus_tile_the_note(s, v, start as int, end as int);
        }
    }
    let mut out: Vec<Plateau> = Vec::new();
    if start >= end {
        return out;
    }
    if runs.len() == 0 {
        out.push(Plateau { start, len: end - start, pitch: None });
        assert(out@ =~= plateaus(s, v, start as int, end as int));
        return out;
    }
    let mut found: Vec<usize> = Vec::new();
    let mut best: usize = 0;
    let mut i: usize = 0;
    let ghost all = runs@;
    let ghost mut places = Seq::<int>::empty();
    assert(all.take(0) =~= Seq::<Plateau>::empty());
    while i < runs.len()
        invariant
            i <= runs@.len(),
            all == runs@,
            all.len() > 0,
            places == anchors(all.take(i as int)),
            found@.len() == places.len(),
            forall|k: int| 0 <= k < found@.len() ==> #[trigger] found@[k] == places[k],
            i > 0 ==> best == longest(all.take(i as int)) && best < i,
            i == 0 ==> best == 0,
        decreases runs@.len() - i,
    {
        assert(all.take(i + 1).drop_last() =~= all.take(i as int));
        if i > 0 {
            if runs[i].len >= runs[best].len {
                best = i;
            }
        }
        if runs[i].len >= MIN_LEGATO_FRAMES {
            found.push(i);
            proof {
                places = places.push(i as int);
            }
        }
        i += 1;
    }
    assert(all.take(all.len() as int) =~= all);
    proof {
        anchors_ascend(all);
    }
    if found.len() < 2 {
        out.push(Plateau { start, len: end - start, pitch: runs[best].pitch });
        assert(out@ =~= plateaus(s, v, start as int, end as int));
        return out;
    }
    let mut k: usize = 0;
    while k < found.len()
        invariant
            k <= found@.len(),
            all == runs@,
            start <= end,
            places == anchors(all),
            places.len() >= 2,
            found@.len() == places.len(),
            forall|k: int| 0 <= k < found@.len() ==> #[trigger] found@[k] == places[k],
            forall|k: int| 0 <= k < places.len() ==> 0 <= #[trigger] places[k] < all.len(),
            forall|k: int, l: int|
                0 <= k < l < places.len() ==> #[trigger] places[k] < #[trigger] places[l],
            forall|i: int| 0 <= i < all.len() ==> (#[trigger] all[i]).len > 0 && all[i].start
                >= start,
            forall|i: int, j: int|
                0 <= i < j < all.len() ==> (#[trigger] all[i]).start + all[i].len <= (
                #[trigger] all[j]).start,
            all.last().start + all.last().len == end,
            out@.len() == k,
            forall|l: int|
                0 <= l < k ==> #[trigger] out@[l] == anchor_note(
                    all,
                    places,
                    l,
                    start as int,
                    end as int,
                ),
        decreases found@.len() - k,
    {
        let here: usize = found[k];
        let from: u32 = if k == 0 {
            start
        } else {
            runs[here].start
        };
        let to: u32 = if k + 1 < found.len() {
            runs[found[k + 1]].start
        } else {
            end
        };
        proof {
            assert(places[k as int] == here);
            if k + 1 < places.len() {
                assert(places[k as int] < places[k + 1]);
                assert(all[places[k as int]].start + all[places[k as int]].len
                    <= all[places[k + 1]].start);
            } else if here < all.len() - 1 {
                assert(all[here as int].start + all[here as int].len <= all[all.len() - 1].start);
            }
        }
        out.push(Plateau { start: from, len: to - from, pitch: runs[here].pitch });
        k += 1;
    }
    assert(out@ =~= plateaus(s, v, start as int, end as int));
    out
}

/// The body of a drum: the first sustained pitch, if it lies more than an
/// octave below the gated one.
pub open spec fn drop_body(first: Option<u8>, gate_midi: u8) -> Option<u8> {
    match first {
        Some(d) => if d < gate_midi - MAX_ONSET_GLIDE_SEMITONES {
            Some(d)
        } else {
            None
        },
        None => None,
    }
}

/// The body of a drum, if the first sustained pitch is one.
pub fn plateau_drop_dest(first_pitch: Option<u8>, gate_midi: u8) -> (r: Option<u8>)
    ensures
        r == drop_body(first_pitch, gate_midi),
{
    match first_pitch {
        Some(d) => if (d as i32) < gate_midi as i32 - MAX_ONSET_GLIDE_SEMITONES {
            Some(d)
        } else {
            None
        },
        None => None,
    }
}

/// The first sustained pitch of a note.
pub open spec fn first_plateau_pitch(
    states: Seq<ProgramFrame>,
    v: int,
    start: int,
    end: int,
) -> Option<u8> {
    let p = plateaus(states, v, start, end);
    if p.len() > 0 {
        p[0].pitch
    } else {
        None
    }
}

/// The drum body of a note. A note with vibrato is a sustained tone and has
/// none.
pub open spec fn drum_body(
    event: NoteEvent,
    states: Seq<ProgramFrame>,
    has_vibrato: bool,
    frame_count: u32,
) -> Option<u8> {
    if has_vibrato {
        None
    } else {
        drop_body(
            first_plateau_pitch(
                states,
                event.voice.0 - 1,
                event.start_frame as int,
                authored_end(event, frame_count) as int,
            ),
            event.midi,
        )
    }
}

/// Tells whether a note is a drum that drops from its gated pitch, and to which
/// body.
pub fn drum_drop_dest(
    event: &NoteEvent,
    states: &[ProgramFrame],
    has_vibrato: bool,
    frame_count: u32,
) -> (r: Option<u8>)
    requires
        event.voice.valid(),
    ensures
        r == drum_body(*event, states@, has_vibrato, frame_count),
{
    if has_vibrato {
        return None;
    }
    let end: u32 = authored_note_end_frame(event, frame_count);
    let list: Vec<Plateau> = pitch_plateaus(
        states,
        event.voice.to_index(),
        event.start_frame,
        end,
    );
    let first: Option<u8> = if list.len() > 0 {
        list[0].pitch
    } else {
        None
    };
    plateau_drop_dest(first, event.midi)
}

proof fn held_pitch_is_one_run(pitches: Seq<Option<u8>>, start: int, p: u8)
    requires
        pitches.len() > 0,
        0 <= start,
        start + pitches.len() <= u32::MAX,
        forall|j: int| 0 <= j < pitches.len() ==> #[trigger] pitches[j] == Some(p),
    ensures
        pitch_runs(pitches, start) == seq![
            Plateau { start: start as u32, len: pitches.len() as u32, pitch: Some(p) },
        ],
    decreases pitches.len(),
{
    let t = pitches.drop_last();
    assert(pitches.last() == pitches[pitches.len() - 1]);
    if t.len() > 0 {
        assert forall|j: int| 0 <= j < t.len() implies #[trigger] t[j] == Some(p) by {
            assert(t[j] == pitches[j]);
        }
        held_pitch_is_one_run(t, start, p);
    } else {
        assert(pitch_runs(t, start) =~= Seq::<Plateau>::empty());
    }
    assert(pitch_runs(pitches, start) =~= seq![
        Plateau { start: start as u32, len: pitches.len() as u32, pitch: Some(p) },
    ]);
}

proof fn stepped_pitch_is_two_runs(pitches: Seq<Option<u8>>, start: int, at: int, p: u8, q: u8)
    requires
        0 < at < pitches.len(),
        0 <= start,
        start + pitches.len() <= u32::MAX,
        p != q,
        forall|j: int| 0 <= j < at ==> #[trigger] pitches[j] == Some(p),
        forall|j: int| at <= j < pitches.len() ==> #[trigger] pitches[j] == Some(q),
    ensures
        pitch_runs(pitches, start) == seq![
            Plateau { start: start as u32, len: at as u32, pitch: Some(p) },
            Plateau {
                start: (start + at) as u32,
                len: (pitches.len() - at) as u32,
                pitch: Some(q),
            },
        ],
    decreases pitches.len(),
{
    let t = pitches.drop_last();
    assert(pitches.last() == pitches[pitches.len() - 1]);
    assert(forall|j: int| 0 <= j < t.len() ==> #[trigger] t[j] == pitches[j]);
    if t.len() > at {
        stepped_pitch_is_two_runs(t, start, at, p, q);
    } else {
        held_pitch_is_one_run(t, start, p);
    }
    assert(pitch_runs(pitches, start) =~= seq![
        Plateau { start: start as u32, len: at as u32, pitch: Some(p) },
        Plateau { start: (start + at) as u32, len: (pitches.len() - at) as u32, pitch: Some(q) },
    ]);
}

/// A note that holds one pitch is one plateau at it.
pub proof fn held_pitches_are_one_plateau(
    states: Seq<ProgramFrame>,
    v: int,
    start: int,
    end: int,
    p: u8,
)
    requires
        0 <= v < 3,
        0 <= start < end <= states.len(),
        end <= u32::MAX,
        forall|f: int|
            start <= f < end ==> (#[trigger] states[f]).voices@[v].freq != 0
                && states[f].voices@[v].pitch == Some(p),
    ensures
        ({
            let r = plateaus(states, v, start, end);
            &&& r.len() == 1
            &&& r[0].start == start
            &&& r[0].start + r[0].len == end
            &&& r[0].pitch == Some(p)
        }),
{
    let pitches = voice_pitches(states, v, start, end);
    assert forall|j: int| 0 <= j < pitches.len() implies #[trigger] pitches[j] == Some(p) by {
        assert(states[start + j].voices@[v].freq != 0);
    }
    held_pitch_is_one_run(pitches, start, p);
    let runs = pitch_runs(pitches, start);
    assert(runs.drop_last() =~= Seq::<Plateau>::empty());
    reveal_with_fuel(anchors, 2);
}

/// A note that steps from one pitch to another and holds each for four frames at least is
/// two plateaus, one for each pitch; if it holds one of them for less, it is one plateau
/// at the pitch that it holds longer.
pub proof fn sustained_steps_are_plateaus(
    states: Seq<ProgramFrame>,
    v: int,
    start: int,
    at: int,
    end: int,
    p: u8,
    q: u8,
)
    requires
        0 <= v < 3,
        0 <= start < at < end <= states.len(),
        end <= u32::MAX,
        p != q,
        forall|f: int|
            start <= f < end ==> (#[trigger] states[f]).voices@[v].freq != 0
                && states[f].voices@[v].pitch == Some(
                if f < at {
                    p
                } else {
                    q
                },
            ),
    ensures
        ({
            let r = plateaus(states, v, start, end);
            &&& r[0].start == start
            &&& at - start >= 4 && end - at >= 4 ==> {
                &&& r.len() == 2
                &&& r[0].start + r[0].len == at
                &&& r[0].pitch == Some(p)
                &&& r[1].start == at
                &&& r[1].start + r[1].len == end
                &&& r[1].pitch == Some(q)
            }
            &&& at - start < 4 || end - at < 4 ==> {
                &&& r.len() == 1
                &&& r[0].start + r[0].len == end
                &&& at - start > end - at ==> r[0].pitch == Some(p)
                &&& at - start < end - at ==> r[0].pitch == Some(q)
            }
        }),
{
    let pitches = voice_pitches(states, v, start, end);
    assert forall|j: int| 0 <= j < at - start implies #[trigger] pitches[j] == Some(p) by {
        assert(states[start + j].voices@[v].freq != 0);
    }
    assert forall|j: int| at - start <= j < pitches.len() implies #[trigger] pitches[j] == Some(
        q,
    ) by {
        assert(states[start + j].voices@[v].freq != 0);
    }
    stepped_pitch_is_two_runs(pitches, start, at - start, p, q);
    let runs = pitch_runs(pitches, start);
    let one = runs.drop_last();
    let none = one.drop_last();
    assert(none =~= Seq::<Plateau>::empty());
    assert(one.len() == 1 && one[0] == runs[0]);
    reveal_with_fuel(anchors, 3);
    reveal_with_fuel(longest, 3);
}

/// A drum's body lies more than an octave below the pitch that was gated.
pub proof fn drum_bodies_lie_far_below(first: Option<u8>, gate_midi: u8)
    ensures
        drop_body(first, gate_midi) is Some <==> first is Some && first->0 + 12 < gate_midi,
        drop_body(first, gate_midi) is Some ==> drop_body(first, gate_midi) == first,
{
}

/// A note with vibrato is no drum; another one is a drum just where the first pitch that it
/// sustains lies more than an octave below its own.
pub proof fn drums_drop_from_their_pitch(
    event: NoteEvent,
    states: Seq<ProgramFrame>,
    frame_count: u32,
    p: u8,
)
    requires
        event.voice.valid(),
        event.start_frame < authored_end(event, frame_count) <= states.len(),
        forall|f: int|
            event.start_frame <= f < authored_end(event, frame_count) ==> (
            #[trigger] states[f]).voices@[event.voice.0 - 1].freq != 0
                && states[f].voices@[event.voice.0 - 1].pitch == Some(p),
    ensures
        drum_body(event, states, true, frame_count) is None,
        drum_body(event, states, false, frame_count) == (if p + 12 < event.midi {
            Some(p)
        } else {
            None
        }),
{
    held_pitches_are_one_plateau(
        states,
        event.voice.0 - 1,
        event.start_frame as int,
        authored_end(event, frame_count) as int,
        p,
    );
}

} // verus!
