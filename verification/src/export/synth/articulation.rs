//! When notes begin, end and sound, measured on the chip.

use crate::analysis::frame::{EnvelopeEvent, EnvelopeEventKind, NoteEvent, ProgramFrame};
use vstd::prelude::*;

verus! {

/// A gate has to stay low this long to end a note; a shorter dip restarts the
/// envelope.
pub const MIN_GATE_OFF_FRAMES: u32 = 2;

/// How many frames the authored start of a note may precede its gate.
pub const GATE_ON_LEAD_MAX: u32 = 3;

/// How many frames the envelope may stay at zero after the voice gate rises.
pub const ONSET_LAG_MAX: u32 = 2;

/// Whether a voice is gated at a frame.
pub open spec fn gated(states: Seq<ProgramFrame>, v: int, f: int) -> bool {
    0 <= f < states.len() && states[f].voices@[v].gate
}

/// Whether a voice is known to be silent at a frame.
pub open spec fn known_silent(states: Seq<ProgramFrame>, v: int, f: int) -> bool {
    0 <= f < states.len() && states[f].digital_state_exact
        && states[f].digital_voices@[v].active_cycles == 0
}

/// Whether the envelope of a voice is active at a frame.
pub open spec fn audible(states: Seq<ProgramFrame>, v: int, f: int) -> bool {
    0 <= f < states.len() && states[f].digital_voices@[v].active_cycles > 0
}

/// The end of a note as authored: its release, or the end of the trace, but
/// never before its start.
pub open spec fn authored_end(event: NoteEvent, frame_count: u32) -> u32 {
    let end = match event.end_frame {
        Some(f) => f,
        None => frame_count,
    };
    if end < event.start_frame {
        event.start_frame
    } else {
        end
    }
}

/// The end of a note as authored: its release, or the end of the trace, but
/// never before its start.
pub fn authored_note_end_frame(event: &NoteEvent, frame_count: u32) -> (r: u32)
    ensures
        r == authored_end(*event, frame_count),
        r >= event.start_frame,
{
    let end: u32 = match event.end_frame {
        Some(f) => f,
        None => frame_count,
    };
    if end < event.start_frame {
        event.start_frame
    } else {
        end
    }
}

/// The first gated frame from `f` on and before `end`; `end` if there is none.
pub open spec fn next_gate(states: Seq<ProgramFrame>, v: int, f: int, end: int) -> int
    decreases end - f,
{
    if f >= end {
        end
    } else if gated(states, v, f) {
        f
    } else {
        next_gate(states, v, f + 1, end)
    }
}

/// The first frame from `f` on with two ungated frames in a row before `end`;
/// `end` if there is none.
pub open spec fn next_note_off(states: Seq<ProgramFrame>, v: int, f: int, end: int) -> int
    decreases end - f,
{
    if f + 1 >= end {
        end
    } else if !gated(states, v, f) && !gated(states, v, f + 1) {
        f
    } else {
        next_note_off(states, v, f + 1, end)
    }
}

/// Where the voice gate of a note goes off: at the first note-off after the voice gate went
/// on; a note that is never gated, or never released, keeps its end.
pub open spec fn gate_end(states: Seq<ProgramFrame>, v: int, start: int, end: int) -> int {
    let on = next_gate(states, v, start, end);
    if on >= end {
        end
    } else {
        next_note_off(states, v, on, end)
    }
}

fn gate_at(states: &[ProgramFrame], voice_index: usize, f: u32) -> (r: bool)
    requires
        voice_index < 3,
    ensures
        r == gated(states@, voice_index as int, f as int),
{
    (f as usize) < states.len() && states[f as usize].voices[voice_index].gate
}

/// Where the voice gate of a note goes off, within its authored length.
pub fn gate_on_end(
    states: &[ProgramFrame],
    voice_index: usize,
    start: u32,
    authored_end: u32,
) -> (r: u32)
    requires
        voice_index < 3,
    ensures
        r == gate_end(states@, voice_index as int, start as int, authored_end as int),
        r <= authored_end,
        start < authored_end ==> r > start,
{
    let ghost s = states@;
    let ghost v = voice_index as int;
    let mut gate_on: u32 = start;
    while gate_on < authored_end && !gate_at(states, voice_index, gate_on)
        invariant
            voice_index < 3,
            s == states@,
            v == voice_index,
            start <= gate_on,
            start <= authored_end ==> gate_on <= authored_end,
            next_gate(s, v, start as int, authored_end as int) == next_gate(
                s,
                v,
                gate_on as int,
                authored_end as int,
            ),
        decreases authored_end - gate_on,
    {
        gate_on += 1;
    }
    if gate_on >= authored_end {
        return authored_end;
    }
    let mut f: u32 = gate_on;
    while f < authored_end && f + 1 < authored_end
        invariant
            voice_index < 3,
            s == states@,
            v == voice_index,
            start <= gate_on <= f <= authored_end,
            gate_on < authored_end,
            gated(s, v, gate_on as int),
            next_gate(s, v, start as int, authored_end as int) == gate_on,
            next_note_off(s, v, gate_on as int, authored_end as int) == next_note_off(
                s,
                v,
                f as int,
                authored_end as int,
            ),
        decreases authored_end - f,
    {
        if !gate_at(states, voice_index, f) && !gate_at(states, voice_index, f + 1) {
            return f;
        }
        f += 1;
    }
    authored_end
}

/// The first audible frame shortly after the voice gate rose, if the frames before it
/// are known to be silent; otherwise the frame of the voice gate.
pub open spec fn onset_start(states: Seq<ProgramFrame>, v: int, start: int, end: int) -> int {
    let lag = if start < end && known_silent(states, v, start) {
        if start + 1 < end && known_silent(states, v, start + 1) {
            2int
        } else {
            1
        }
    } else {
        0
    };
    if lag > 0 && start + lag < end && audible(states, v, start + lag) {
        start + lag
    } else {
        start
    }
}

/// Where a note starts: at its gate if that rises within the lead window, and
/// then where its envelope becomes audible.
pub open spec fn gate_start(states: Seq<ProgramFrame>, v: int, start: int, end: int) -> int {
    let limit = if start + 3 < end {
        start + 3
    } else {
        end
    };
    let on = next_gate(states, v, start, limit);
    onset_start(
        states,
        v,
        if on < limit {
            on
        } else {
            start
        },
        end,
    )
}

fn silent_exact(states: &[ProgramFrame], voice_index: usize, f: u32) -> (r: bool)
    requires
        voice_index < 3,
    ensures
        r == known_silent(states@, voice_index as int, f as int),
{
    (f as usize) < states.len() && states[f as usize].digital_state_exact
        && states[f as usize].digital_voices[voice_index].active_cycles == 0
}

/// Moves a start that is known to be silent to the first audible frame, if that
/// follows closely.
pub fn measured_onset_start(
    states: &[ProgramFrame],
    voice_index: usize,
    gate_start: u32,
    authored_end: u32,
) -> (r: u32)
    requires
        voice_index < 3,
        gate_start + ONSET_LAG_MAX <= u32::MAX,
    ensures
        r == onset_start(states@, voice_index as int, gate_start as int, authored_end as int),
        gate_start <= r <= gate_start + ONSET_LAG_MAX,
        gate_start < authored_end ==> r < authored_end,
{
    let mut f: u32 = gate_start;
    if f < authored_end && silent_exact(states, voice_index, f) {
        f += 1;
        if f < authored_end && silent_exact(states, voice_index, f) {
            f += 1;
        }
    }
    if f > gate_start && f < authored_end && (f as usize) < states.len()
        && states[f as usize].digital_voices[voice_index].active_cycles > 0 {
        f
    } else {
        gate_start
    }
}

/// Where a note starts on the chip, near its authored start.
pub fn gate_on_start(
    states: &[ProgramFrame],
    voice_index: usize,
    start: u32,
    authored_end: u32,
) -> (r: u32)
    requires
        voice_index < 3,
        start + GATE_ON_LEAD_MAX + ONSET_LAG_MAX <= u32::MAX,
    ensures
        r == gate_start(states@, voice_index as int, start as int, authored_end as int),
        start <= r < start + GATE_ON_LEAD_MAX + ONSET_LAG_MAX,
        start < authored_end ==> r < authored_end,
{
    let limit: u32 = if start + GATE_ON_LEAD_MAX < authored_end {
        start + GATE_ON_LEAD_MAX
    } else {
        authored_end
    };
    let ghost s = states@;
    let ghost v = voice_index as int;
    let mut f: u32 = start;
    while f < limit && !gate_at(states, voice_index, f)
        invariant
            voice_index < 3,
            s == states@,
            v == voice_index,
            start <= f,
            start <= limit ==> f <= limit,
            next_gate(s, v, start as int, limit as int) == next_gate(
                s,
                v,
                f as int,
                limit as int,
            ),
        decreases limit - f,
    {
        f += 1;
    }
    let gate_frame: u32 = if f < limit {
        f
    } else {
        start
    };
    measured_onset_start(states, voice_index, gate_frame, authored_end)
}

/// A note whose gate stays high keeps its authored length, and so does one
/// whose gate only dips for single frames.
pub proof fn held_notes_keep_their_length(
    states: Seq<ProgramFrame>,
    v: int,
    start: int,
    end: int,
)
    requires
        0 <= v < 3,
        start <= end,
        forall|f: int| start <= f < end - 1 ==> gated(states, v, f) || #[trigger] gated(
            states,
            v,
            f + 1,
        ),
    ensures
        gate_end(states, v, start, end) == end,
{
    next_gate_bounds(states, v, start, end);
    let on = next_gate(states, v, start, end);
    if on < end {
        no_note_off(states, v, on, end);
    }
}

proof fn next_gate_bounds(states: Seq<ProgramFrame>, v: int, f: int, end: int)
    requires
        f <= end,
    ensures
        f <= next_gate(states, v, f, end) <= end,
    decreases end - f,
{
    if f < end && !gated(states, v, f) {
        next_gate_bounds(states, v, f + 1, end);
    }
}

proof fn no_note_off(states: Seq<ProgramFrame>, v: int, f: int, end: int)
    requires
        forall|g: int| f <= g < end - 1 ==> gated(states, v, g) || #[trigger] gated(
            states,
            v,
            g + 1,
        ),
    ensures
        next_note_off(states, v, f, end) == end,
    decreases end - f,
{
    if f + 1 < end {
        assert(gated(states, v, f) || gated(states, v, f + 1));
        no_note_off(states, v, f + 1, end);
    }
}

proof fn next_note_off_bounds(states: Seq<ProgramFrame>, v: int, f: int, end: int)
    requires
        f <= end,
    ensures
        f <= next_note_off(states, v, f, end) <= end,
    decreases end - f,
{
    if f + 1 < end && (gated(states, v, f) || gated(states, v, f + 1)) {
        next_note_off_bounds(states, v, f + 1, end);
    }
}

/// Gating a note never moves it out of its authored length: it starts at most
/// four frames late and ends no later than it was written.
pub proof fn gating_stays_inside(states: Seq<ProgramFrame>, v: int, start: int, end: int)
    requires
        0 <= v < 3,
        start <= end,
    ensures
        start <= gate_start(states, v, start, end) < start + GATE_ON_LEAD_MAX + ONSET_LAG_MAX,
        gate_start(states, v, start, end) <= end,
        ({
            let on = gate_start(states, v, start, end);
            on <= gate_end(states, v, on, end) <= end
        }),
{
    let limit = if start + 3 < end {
        start + 3
    } else {
        end
    };
    next_gate_bounds(states, v, start, limit);
    let on = gate_start(states, v, start, end);
    next_gate_bounds(states, v, on, end);
    next_note_off_bounds(states, v, next_gate(states, v, on, end), end);
}

/// A note that is gated at its start and not known to be silent there is left
/// where it is.
pub proof fn gated_notes_keep_their_start(
    states: Seq<ProgramFrame>,
    v: int,
    start: int,
    end: int,
)
    requires
        0 <= v < 3,
        gated(states, v, start),
        !known_silent(states, v, start),
    ensures
        gate_start(states, v, start, end) == start,
{
}

/// Whether a voice sounds at a frame: it is gated, or its envelope is not at
/// rest.
pub open spec fn sounding(states: Seq<ProgramFrame>, v: int, f: int) -> bool {
    0 <= f < states.len() && (states[f].voices@[v].gate || states[f].digital_voices@[v].level > 0
        || states[f].digital_voices@[v].active_cycles > 0)
}

/// Whether a voice sounds anywhere from `start` up to `end`.
pub fn span_has_signal(states: &[ProgramFrame], voice_index: usize, start: u32, end: u32) -> (r:
    bool)
    requires
        voice_index < 3,
    ensures
        r == exists|f: int| start <= f < end && #[trigger] sounding(states@, voice_index as int, f),
{
    let ghost s = states@;
    let ghost v = voice_index as int;
    let mut f: u32 = start;
    while f < end && (f as usize) < states.len()
        invariant
            voice_index < 3,
            s == states@,
            v == voice_index,
            start <= f,
            start <= end ==> f <= end,
            forall|g: int| start <= g < f ==> !#[trigger] sounding(s, v, g),
        decreases end - f,
    {
        let state: &ProgramFrame = &states[f as usize];
        if state.voices[voice_index].gate || state.digital_voices[voice_index].level > 0
            || state.digital_voices[voice_index].active_cycles > 0 {
            assert(sounding(s, v, f as int));
            return true;
        }
        f += 1;
    }
    assert forall|g: int| start <= g < end implies !#[trigger] sounding(s, v, g) by {}
    false
}

/// What the chip made of a note.
#[derive(Debug, Clone, Copy, PartialEq, Eq, Structural)]
pub struct ChipArticulation {
    pub release: Option<u32>,
    pub sound_end: Option<u32>,
    pub peak_level: u8,
    pub retriggers: u32,
    pub exact: bool,
}

/// The frames in which a note is followed: up to and including its end, as far
/// as the trace goes; nothing if it starts behind that.
pub open spec fn followed(event: NoteEvent, states: Seq<ProgramFrame>) -> Seq<ProgramFrame> {
    let last = match event.sound_end {
        Some(f) => Some(f),
        None => event.end_frame,
    };
    let end = match last {
        Some(f) => if f + 1 < states.len() {
            f + 1
        } else {
            states.len() as int
        },
        None => states.len() as int,
    };
    if event.start_frame <= end {
        states.subrange(event.start_frame as int, end)
    } else {
        Seq::empty()
    }
}

/// The highest envelope level of a voice over some frames.
pub open spec fn peak(frames: Seq<ProgramFrame>, v: int) -> u8
    decreases frames.len(),
{
    if frames.len() == 0 {
        0
    } else {
        let before = peak(frames.drop_last(), v);
        let here = frames.last().digital_voices@[v].peak_level;
        if here > before {
            here
        } else {
            before
        }
    }
}

/// How many events are attacks.
pub open spec fn attacks_in(events: Seq<EnvelopeEvent>) -> nat
    decreases events.len(),
{
    if events.len() == 0 {
        0
    } else {
        attacks_in(events.drop_last()) + if events.last().kind == EnvelopeEventKind::EnteredAttack {
            1nat
        } else {
            0
        }
    }
}

/// How often a voice entered its attack over some frames.
pub open spec fn attacks(frames: Seq<ProgramFrame>, v: int) -> nat
    decreases frames.len(),
{
    if frames.len() == 0 {
        0
    } else {
        attacks(frames.drop_last(), v) + attacks_in(frames.last().digital_voices@[v].events@)
    }
}

/// Whether one of the attacks is the onset of the note: one in its first frame,
/// or one in the lead window if the note begins before its gate. A note that
/// begins gated and without an attack began legato.
pub open spec fn has_onset_attack(frames: Seq<ProgramFrame>, v: int) -> bool {
    if frames.len() == 0 {
        false
    } else if attacks_in(frames[0].digital_voices@[v].events@) > 0 {
        true
    } else {
        !frames[0].voices@[v].gate && exists|f: int|
            0 <= f < frames.len() && f <= 3 && #[trigger] attacks_in(
                frames[f].digital_voices@[v].events@,
            ) > 0
    }
}

/// What the chip made of a note.
pub open spec fn articulation_of(event: NoteEvent, states: Seq<ProgramFrame>) -> ChipArticulation {
    let frames = followed(event, states);
    let v = event.voice.0 - 1;
    let total = attacks(frames, v);
    ChipArticulation {
        release: event.end_frame,
        sound_end: event.sound_end,
        peak_level: peak(frames, v),
        retriggers: (if has_onset_attack(frames, v) && total > 0 {
            (total - 1) as nat
        } else {
            total
        }) as u32,
        exact: frames.len() > 0 && forall|f: int|
            0 <= f < frames.len() ==> (#[trigger] frames[f]).digital_state_exact,
    }
}

fn count_attacks(events: &Vec<EnvelopeEvent>) -> (r: usize)
    ensures
        r == attacks_in(events@),
        r <= events@.len(),
{
    let mut count: usize = 0;
    let mut i: usize = 0;
    assert(events@.take(0) =~= Seq::<EnvelopeEvent>::empty());
    while i < events.len()
        invariant
            i <= events@.len(),
            count <= i,
            count == attacks_in(events@.take(i as int)),
        decreases events@.len() - i,
    {
        assert(events@.take(i + 1).drop_last() =~= events@.take(i as int));
        if events[i].kind == EnvelopeEventKind::EnteredAttack {
            count += 1;
        }
        i += 1;
    }
    assert(events@.take(events@.len() as int) =~= events@);
    count
}

proof fn attacks_grow(frames: Seq<ProgramFrame>, n: int, v: int)
    requires
        0 <= n <= frames.len(),
    ensures
        attacks(frames.take(n), v) <= attacks(frames, v),
    decreases frames.len() - n,
{
    if n == frames.len() {
        assert(frames.take(n) =~= frames);
    } else {
        attacks_grow(frames, n + 1, v);
        assert(frames.take(n + 1).drop_last() =~= frames.take(n));
    }
}

/// How often the envelope events of a note can be counted without overflow.
pub open spec fn attacks_countable(event: NoteEvent, states: Seq<ProgramFrame>) -> bool {
    attacks(followed(event, states), event.voice.0 - 1) <= usize::MAX
}

/// Follows a note on the chip: its highest level, and how often its envelope
/// was started again after its onset.
pub fn chip_articulation(event: &NoteEvent, states: &[ProgramFrame]) -> (r: ChipArticulation)
    requires
        event.voice.valid(),
        attacks_countable(*event, states@),
    ensures
        r == articulation_of(*event, states@),
{
    let start: usize = event.start_frame as usize;
    let last: Option<u32> = match event.sound_end {
        Some(f) => Some(f),
        None => event.end_frame,
    };
    let len: usize = states.len();
    let end: usize = match last {
        Some(f) => if (f as usize) < len {
            f as usize + 1
        } else {
            len
        },
        None => len,
    };
    let voice: usize = event.voice.to_index();
    let ghost frames = followed(*event, states@);
    let ghost v = event.voice.0 - 1;
    let mut peak_level: u8 = 0;
    let mut total: usize = 0;
    let mut exact: bool = start < end;
    let mut early: bool = false;
    let mut i: usize = start;
    assert(frames.take(0) =~= Seq::<ProgramFrame>::empty());
    if start <= end {
        assert(frames.len() == end - start);
        while i < end
            invariant
                start <= i <= end <= states@.len(),
                voice < 3,
                v == voice,
                frames == states@.subrange(start as int, end as int),
                attacks(frames, v) <= usize::MAX,
                peak_level == peak(frames.take(i - start), v),
                total == attacks(frames.take(i - start), v),
                exact == (start < end && forall|f: int|
                    0 <= f < i - start ==> (#[trigger] frames[f]).digital_state_exact),
                early == exists|f: int|
                    0 <= f < i - start && f <= 3 && #[trigger] attacks_in(
                        frames[f].digital_voices@[v].events@,
                    ) > 0,
            decreases end - i,
        {
            let state: &ProgramFrame = &states[i];
            let ghost k = i - start;
            proof {
                assert(frames[k] == *state);
                assert(frames.take(k + 1).drop_last() =~= frames.take(k));
                attacks_grow(frames, k + 1, v);
            }
            if state.digital_voices[voice].peak_level > peak_level {
                peak_level = state.digital_voices[voice].peak_level;
            }
            let here: usize = count_attacks(&state.digital_voices[voice].events);
            total += here;
            exact = exact && state.digital_state_exact;
            let ghost before = early;
            if here > 0 && i - start <= 3 {
                early = true;
            }
            proof {
                if before {
                    let f = choose|f: int|
                        0 <= f < k && f <= 3 && #[trigger] attacks_in(
                            frames[f].digital_voices@[v].events@,
                        ) > 0;
                    assert(0 <= f < k + 1 && attacks_in(frames[f].digital_voices@[v].events@) > 0);
                }
                assert(here == attacks_in(frames[k].digital_voices@[v].events@));
            }
            i += 1;
        }
        assert(frames.take(frames.len() as int) =~= frames);
    }
    let onset_attack: bool = if start < end {
        let first: &ProgramFrame = &states[start];
        assert(frames[0] == *first);
        count_attacks(&first.digital_voices[voice].events) > 0 || (!first.voices[voice].gate
            && early)
    } else {
        false
    };
    let retriggers: usize = if onset_attack && total > 0 {
        total - 1
    } else {
        total
    };
    ChipArticulation {
        release: event.end_frame,
        sound_end: event.sound_end,
        peak_level,
        retriggers: retriggers as u32,
        exact,
    }
}

/// Whether the measured envelope of a note can be written as automation.
pub open spec fn automatable(event: NoteEvent, states: Seq<ProgramFrame>) -> bool {
    let a = articulation_of(event, states);
    a.exact && a.sound_end is Some && a.peak_level > 0
}

/// Tells whether the measured envelope of a note can be written as automation.
pub fn articulation_is_automatable(event: &NoteEvent, states: &[ProgramFrame]) -> (r: bool)
    requires
        event.voice.valid(),
        attacks_countable(*event, states@),
    ensures
        r == automatable(*event, states@),
{
    let a: ChipArticulation = chip_articulation(event, states);
    a.exact && a.sound_end.is_some() && a.peak_level > 0
}

/// How loud a note is: its measured peak of 255, or else its velocity of 127.
#[derive(Debug, Clone, Copy, PartialEq, Eq, Structural)]
pub enum NoteLevel {
    Measured(u8),
    Velocity(u8),
}

/// How loud a note is exported.
pub open spec fn note_level(event: NoteEvent, states: Seq<ProgramFrame>) -> NoteLevel {
    let a = articulation_of(event, states);
    if a.exact && a.peak_level > 0 {
        NoteLevel::Measured(a.peak_level)
    } else {
        NoteLevel::Velocity(event.velocity)
    }
}

/// How loud a note is exported: as measured where the measurement is exact.
pub fn export_velocity(event: &NoteEvent, states: &[ProgramFrame]) -> (r: NoteLevel)
    requires
        event.voice.valid(),
        attacks_countable(*event, states@),
    ensures
        r == note_level(*event, states@),
{
    let a: ChipArticulation = chip_articulation(event, states);
    if a.exact && a.peak_level > 0 {
        NoteLevel::Measured(a.peak_level)
    } else {
        NoteLevel::Velocity(event.velocity)
    }
}

/// Whether the waveform of a voice stays the same over some frames.
pub open spec fn steady_waveform(states: Seq<ProgramFrame>, v: int, start: int, end: int) -> bool {
    forall|f: int|
        start <= f < end ==> (#[trigger] states[f]).voices@[v].waveform
            == states[start].voices@[v].waveform
}

/// Whether the release of a note keeps the waveform of its first frame: a note
/// without a release does, one whose end was not observed does not, and one
/// whose release is not inside the trace does.
pub open spec fn stable_release(event: NoteEvent, states: Seq<ProgramFrame>) -> bool {
    match (event.end_frame, event.sound_end) {
        (None, _) => true,
        (Some(_), None) => false,
        (Some(release), Some(sound_end)) => !(release <= sound_end <= states.len())
            || steady_waveform(states, event.voice.0 - 1, release as int, sound_end as int),
    }
}

/// Tells whether the release of a note keeps its waveform.
pub fn release_waveform_is_stable(event: &NoteEvent, states: &[ProgramFrame]) -> (r: bool)
    requires
        event.voice.valid(),
    ensures
        r == stable_release(*event, states@),
{
    let release: u32 = match event.end_frame {
        Some(f) => f,
        None => {
            return true;
        },
    };
    let sound_end: u32 = match event.sound_end {
        Some(f) => f,
        None => {
            return false;
        },
    };
    let voice: usize = event.voice.to_index();
    if release > sound_end || sound_end as usize > states.len() || release == sound_end {
        return true;
    }
    let first: u8 = states[release as usize].voices[voice].waveform;
    let mut f: usize = release as usize;
    while f < sound_end as usize
        invariant
            voice < 3,
            voice == event.voice.0 - 1,
            event.end_frame == Some(release),
            event.sound_end == Some(sound_end),
            release < sound_end <= states@.len(),
            release <= f <= sound_end,
            first == states@[release as int].voices@[voice as int].waveform,
            forall|g: int|
                release <= g < f ==> (#[trigger] states@[g]).voices@[voice as int].waveform
                    == first,
        decreases sound_end - f,
    {
        if states[f].voices[voice].waveform != first {
            assert(states@[f as int].voices@[voice as int].waveform != first);
            return false;
        }
        f += 1;
    }
    true
}

/// Whether the frequency of a voice moves between some frames.
pub open spec fn frequency_moves(states: Seq<ProgramFrame>, v: int, start: int, end: int) -> bool {
    exists|f: int|
        start <= f < end - 1 && (#[trigger] states[f]).voices@[v].freq != states[f
            + 1].voices@[v].freq
}

/// Tells whether the frequency of a voice moves between some frames of a trace.
pub fn moves_in_frequency(states: &[ProgramFrame], voice: usize, start: usize, end: usize) -> (r:
    bool)
    requires
        voice < 3,
        start <= end <= states@.len(),
    ensures
        r == frequency_moves(states@, voice as int, start as int, end as int),
{
    let mut f: usize = start;
    while f < end && f + 1 < end
        invariant
            voice < 3,
            start <= f <= end <= states@.len(),
            forall|g: int|
                start <= g < f && g < end - 1 ==> (#[trigger] states@[g]).voices@[voice as int].freq
                    == states@[g + 1].voices@[voice as int].freq,
        decreases end - f,
    {
        if states[f].voices[voice].freq != states[f + 1].voices[voice].freq {
            assert(states@[f as int].voices@[voice as int].freq != states@[f
                + 1].voices@[voice as int].freq);
            return true;
        }
        f += 1;
    }
    false
}

/// Whether a note still lasts at a frame behind its start: until its envelope reached
/// zero where that was observed, or else until its release, the last frame included.
pub open spec fn lasts_until(event: NoteEvent, f: int) -> bool {
    match (event.sound_end, event.end_frame) {
        (Some(e), _) => f <= e,
        (None, Some(e)) => f <= e,
        (None, None) => true,
    }
}

proof fn peak_is_highest(frames: Seq<ProgramFrame>, v: int)
    ensures
        forall|f: int|
            0 <= f < frames.len() ==> (#[trigger] frames[f]).digital_voices@[v].peak_level <= peak(
                frames,
                v,
            ),
        frames.len() > 0 ==> exists|f: int|
            0 <= f < frames.len() && (#[trigger] frames[f]).digital_voices@[v].peak_level == peak(
                frames,
                v,
            ),
        frames.len() == 0 ==> peak(frames, v) == 0,
    decreases frames.len(),
{
    if frames.len() > 0 {
        let t = frames.drop_last();
        peak_is_highest(t, v);
        let last = frames.len() - 1;
        assert forall|f: int| 0 <= f < frames.len() implies (
        #[trigger] frames[f]).digital_voices@[v].peak_level <= peak(frames, v) by {
            if f < last {
                assert(t[f] == frames[f]);
            }
        }
        if peak(frames, v) == frames[last].digital_voices@[v].peak_level {
        } else {
            let f = choose|f: int|
                0 <= f < t.len() && (#[trigger] t[f]).digital_voices@[v].peak_level == peak(t, v);
            assert(frames[f] == t[f]);
        }
    }
}

/// The level of a note is the highest one that its envelope reached while it lasted: no
/// frame of it was louder, and one was as loud.
pub proof fn the_measured_level_is_the_highest(event: NoteEvent, states: Seq<ProgramFrame>)
    requires
        event.voice.valid(),
    ensures
        ({
            let v = event.voice.0 - 1;
            let level = articulation_of(event, states).peak_level;
            &&& forall|f: int|
                event.start_frame <= f < states.len() && lasts_until(event, f) ==> (
                #[trigger] states[f]).digital_voices@[v].peak_level <= level
            &&& level > 0 ==> exists|f: int|
                event.start_frame <= f < states.len() && lasts_until(event, f) && (
                #[trigger] states[f]).digital_voices@[v].peak_level == level
        }),
{
    let v = event.voice.0 - 1;
    let frames = followed(event, states);
    let start = event.start_frame as int;
    peak_is_highest(frames, v);
    assert forall|f: int|
        event.start_frame <= f < states.len() && lasts_until(event, f) implies (
    #[trigger] states[f]).digital_voices@[v].peak_level <= peak(frames, v) by {
        assert(frames[f - start] == states[f]);
    }
    if peak(frames, v) > 0 {
        let f = choose|f: int|
            0 <= f < frames.len() && (#[trigger] frames[f]).digital_voices@[v].peak_level == peak(
                frames,
                v,
            );
        assert(states[start + f] == frames[f]);
    }
}

/// A note is as loud as measured where every frame of it was measured exactly and one of
/// them was not silent, and else as loud as its velocity.
pub proof fn notes_are_as_loud_as_measured(event: NoteEvent, states: Seq<ProgramFrame>)
    requires
        event.voice.valid(),
    ensures
        ({
            let v = event.voice.0 - 1;
            let exact = forall|f: int|
                event.start_frame <= f < states.len() && lasts_until(event, f) ==> (
                #[trigger] states[f]).digital_state_exact;
            let heard = exists|f: int|
                event.start_frame <= f < states.len() && lasts_until(event, f) && (
                #[trigger] states[f]).digital_voices@[v].peak_level > 0;
            match note_level(event, states) {
                NoteLevel::Measured(level) => exact && heard && level == articulation_of(
                    event,
                    states,
                ).peak_level,
                NoteLevel::Velocity(velocity) => !(exact && heard) && velocity == event.velocity,
            }
        }),
{
    let v = event.voice.0 - 1;
    let frames = followed(event, states);
    let start = event.start_frame as int;
    the_measured_level_is_the_highest(event, states);
    peak_is_highest(frames, v);
    assert forall|f: int| 0 <= f < frames.len() implies #[trigger] frames[f] == states[start + f]
        && lasts_until(event, start + f) by {}
    assert forall|f: int| start <= f < states.len() && lasts_until(event, f) implies
        #[trigger] states[f] == frames[f - start] by {}
    let a = articulation_of(event, states);
    if forall|f: int|
        event.start_frame <= f < states.len() && lasts_until(event, f) ==> (
        #[trigger] states[f]).digital_state_exact {
        assert forall|f: int| 0 <= f < frames.len() implies (
        #[trigger] frames[f]).digital_state_exact by {
            assert(states[start + f].digital_state_exact);
        }
    }
    if a.exact {
        assert forall|f: int| start <= f < states.len() && lasts_until(event, f) implies (
        #[trigger] states[f]).digital_state_exact by {
            assert(frames[f - start].digital_state_exact);
        }
    }
}

/// Whether an envelope entered its attack as the `j`th thing it did in a frame.
pub open spec fn attacks_there(states: Seq<ProgramFrame>, v: int, f: int, j: int) -> bool {
    &&& 0 <= f < states.len()
    &&& 0 <= j < states[f].digital_voices@[v].events@.len()
    &&& states[f].digital_voices@[v].events@[j].kind == EnvelopeEventKind::EnteredAttack
}

proof fn attack_counts(events: Seq<EnvelopeEvent>, j: int)
    requires
        0 <= j < events.len(),
        events[j].kind == EnvelopeEventKind::EnteredAttack,
    ensures
        attacks_in(events) >= 1,
        forall|i: int|
            0 <= i < events.len() && i != j && (#[trigger] events[i]).kind
                == EnvelopeEventKind::EnteredAttack ==> attacks_in(events) >= 2,
    decreases events.len(),
{
    let t = events.drop_last();
    if j < events.len() - 1 {
        assert(t[j] == events[j]);
        attack_counts(t, j);
        assert forall|i: int|
            0 <= i < events.len() && i != j && (#[trigger] events[i]).kind
                == EnvelopeEventKind::EnteredAttack implies attacks_in(events) >= 2 by {
            if i < t.len() {
                assert(t[i] == events[i]);
            }
        }
    } else {
        assert forall|i: int|
            0 <= i < events.len() && i != j && (#[trigger] events[i]).kind
                == EnvelopeEventKind::EnteredAttack implies attacks_in(events) >= 2 by {
            assert(t[i] == events[i]);
            attack_counts(t, i);
        }
    }
}

proof fn no_attack_counts(events: Seq<EnvelopeEvent>)
    requires
        forall|j: int|
            0 <= j < events.len() ==> (#[trigger] events[j]).kind
                != EnvelopeEventKind::EnteredAttack,
    ensures
        attacks_in(events) == 0,
    decreases events.len(),
{
    if events.len() > 0 {
        let t = events.drop_last();
        assert forall|j: int| 0 <= j < t.len() implies (#[trigger] t[j]).kind
            != EnvelopeEventKind::EnteredAttack by {
            assert(t[j] == events[j]);
        }
        assert(events[events.len() - 1].kind != EnvelopeEventKind::EnteredAttack);
        no_attack_counts(t);
    }
}

proof fn attacks_of_frames(frames: Seq<ProgramFrame>, v: int, f: int, g: int)
    requires
        0 <= f <= g < frames.len(),
    ensures
        attacks(frames, v) >= attacks_in(frames[f].digital_voices@[v].events@),
        f < g ==> attacks(frames, v) >= attacks_in(frames[f].digital_voices@[v].events@)
            + attacks_in(frames[g].digital_voices@[v].events@),
    decreases frames.len(),
{
    let t = frames.drop_last();
    if g < frames.len() - 1 {
        assert(t[f] == frames[f] && t[g] == frames[g]);
        attacks_of_frames(t, v, f, g);
    } else if f < g {
        assert(t[f] == frames[f]);
        attacks_of_frames(t, v, f, f);
    }
}

proof fn silent_frames_have_no_attacks(frames: Seq<ProgramFrame>, v: int)
    requires
        forall|f: int|
            0 <= f < frames.len() ==> attacks_in(
                (#[trigger] frames[f]).digital_voices@[v].events@,
            ) == 0,
    ensures
        attacks(frames, v) == 0,
    decreases frames.len(),
{
    if frames.len() > 0 {
        let t = frames.drop_last();
        assert forall|f: int| 0 <= f < t.len() implies attacks_in(
            (#[trigger] t[f]).digital_voices@[v].events@,
        ) == 0 by {
            assert(t[f] == frames[f]);
        }
        assert(attacks_in(frames[frames.len() - 1].digital_voices@[v].events@) == 0);
        silent_frames_have_no_attacks(t, v);
    }
}

/// A note without attacks was never started again, and of two attacks at least one
/// starts it again. A note that begins with its voice gated and without an attack goes
/// on from the one before it: then every attack starts it again.
pub proof fn further_attacks_are_retriggers(
    event: NoteEvent,
    states: Seq<ProgramFrame>,
    f: int,
    i: int,
    g: int,
    j: int,
)
    requires
        event.voice.valid(),
        attacks(followed(event, states), event.voice.0 - 1) <= u32::MAX,
    ensures
        ({
            let v = event.voice.0 - 1;
            let start = event.start_frame as int;
            let r = articulation_of(event, states).retriggers;
            &&& (forall|h: int, k: int|
                start <= h && lasts_until(event, h) ==> !#[trigger] attacks_there(states, v, h, k))
                ==> r == 0
            &&& start <= f <= g && lasts_until(event, g) && (f < g || i != j) && attacks_there(
                states,
                v,
                f,
                i,
            ) && attacks_there(states, v, g, j) ==> r >= 1
            &&& start < f && lasts_until(event, f) && attacks_there(states, v, f, i)
                && states[start].voices@[v].gate && (forall|k: int|
                !#[trigger] attacks_there(states, v, start, k)) ==> r >= 1
        }),
{
    let v = event.voice.0 - 1;
    let start = event.start_frame as int;
    let frames = followed(event, states);
    if forall|h: int, k: int|
        start <= h && lasts_until(event, h) ==> !#[trigger] attacks_there(states, v, h, k) {
        assert forall|h: int| 0 <= h < frames.len() implies attacks_in(
            (#[trigger] frames[h]).digital_voices@[v].events@,
        ) == 0 by {
            let events = frames[h].digital_voices@[v].events@;
            assert forall|k: int| 0 <= k < events.len() implies (#[trigger] events[k]).kind
                != EnvelopeEventKind::EnteredAttack by {
                assert(frames[h] == states[start + h]);
                assert(!attacks_there(states, v, start + h, k));
            }
            no_attack_counts(events);
        }
        silent_frames_have_no_attacks(frames, v);
    }
    if start <= f <= g && lasts_until(event, g) && (f < g || i != j) && attacks_there(
        states,
        v,
        f,
        i,
    ) && attacks_there(states, v, g, j) {
        assert(frames[f - start] == states[f] && frames[g - start] == states[g]);
        attack_counts(states[f].digital_voices@[v].events@, i);
        attack_counts(states[g].digital_voices@[v].events@, j);
        attacks_of_frames(frames, v, f - start, g - start);
    }
    if start < f && lasts_until(event, f) && attacks_there(states, v, f, i)
        && states[start].voices@[v].gate && (forall|k: int|
        !#[trigger] attacks_there(states, v, start, k)) {
        assert(frames[f - start] == states[f] && frames[0] == states[start]);
        attack_counts(states[f].digital_voices@[v].events@, i);
        attacks_of_frames(frames, v, f - start, f - start);
        let events = states[start].digital_voices@[v].events@;
        assert forall|k: int| 0 <= k < events.len() implies (#[trigger] events[k]).kind
            != EnvelopeEventKind::EnteredAttack by {
            assert(!attacks_there(states, v, start, k));
        }
        no_attack_counts(events);
    }
}

proof fn gate_found(states: Seq<ProgramFrame>, v: int, f: int, on: int, end: int)
    requires
        0 <= f <= on < end,
        on < states.len(),
        states[on].voices@[v].gate,
        forall|g: int| f <= g < on ==> !(#[trigger] states[g]).voices@[v].gate,
    ensures
        next_gate(states, v, f, end) == on,
    decreases on - f,
{
    if f < on {
        assert(!states[f].voices@[v].gate);
        gate_found(states, v, f + 1, on, end);
    }
}

proof fn no_gate_found(states: Seq<ProgramFrame>, v: int, f: int, end: int)
    requires
        0 <= f,
        forall|g: int| f <= g < end && g < states.len() ==> !(#[trigger] states[g]).voices@[v].gate,
    ensures
        next_gate(states, v, f, end) == end,
    decreases end - f,
{
    if f < end {
        if f < states.len() {
            assert(!states[f].voices@[v].gate);
        }
        no_gate_found(states, v, f + 1, end);
    }
}

proof fn off_found(states: Seq<ProgramFrame>, v: int, f: int, off: int, end: int)
    requires
        0 <= f <= off,
        off + 1 < end <= states.len(),
        !states[off].voices@[v].gate && !states[off + 1].voices@[v].gate,
        forall|g: int|
            f <= g < off ==> (#[trigger] states[g]).voices@[v].gate || states[g + 1].voices@[v].gate,
    ensures
        next_note_off(states, v, f, end) == off,
    decreases off - f,
{
    if f < off {
        assert(states[f].voices@[v].gate || states[f + 1].voices@[v].gate);
        off_found(states, v, f + 1, off, end);
    }
}

/// A note starts at the first of its first three frames at which its voice is gated; if
/// it is gated at none of them, it stays where it was written. It waits for its envelope
/// only where that is known to be at rest.
pub proof fn notes_start_with_their_gate(
    states: Seq<ProgramFrame>,
    v: int,
    start: int,
    end: int,
    on: int,
)
    requires
        0 <= v < 3,
        0 <= start <= on < end,
        on < states.len(),
        !(states[on].digital_state_exact && states[on].digital_voices@[v].active_cycles == 0),
    ensures
        on < start + 3 && states[on].voices@[v].gate && (forall|g: int|
            start <= g < on ==> !(#[trigger] states[g]).voices@[v].gate) ==> gate_start(
            states,
            v,
            start,
            end,
        ) == on,
        on == start && (forall|g: int|
            start <= g < start + 3 && g < end && g < states.len() ==> !(
            #[trigger] states[g]).voices@[v].gate) ==> gate_start(states, v, start, end) == start,
{
    let limit = if start + 3 < end {
        start + 3
    } else {
        end
    };
    if on < start + 3 && states[on].voices@[v].gate && (forall|g: int|
        start <= g < on ==> !(#[trigger] states[g]).voices@[v].gate) {
        gate_found(states, v, start, on, limit);
    }
    if on == start && (forall|g: int|
        start <= g < start + 3 && g < end && g < states.len() ==> !(
        #[trigger] states[g]).voices@[v].gate) {
        no_gate_found(states, v, start, limit);
    }
}

/// A gated note whose envelope is at rest for a frame or two starts with the frame in
/// which the envelope sets in.
pub proof fn notes_start_when_they_are_heard(
    states: Seq<ProgramFrame>,
    v: int,
    start: int,
    end: int,
    lag: int,
)
    requires
        0 <= v < 3,
        0 <= start,
        1 <= lag <= 2,
        start + lag < end,
        start + lag < states.len(),
        states[start].voices@[v].gate,
        forall|f: int|
            start <= f < start + lag ==> (#[trigger] states[f]).digital_state_exact
                && states[f].digital_voices@[v].active_cycles == 0,
        states[start + lag].digital_voices@[v].active_cycles > 0,
    ensures
        gate_start(states, v, start, end) == start + lag,
{
    let limit = if start + 3 < end {
        start + 3
    } else {
        end
    };
    gate_found(states, v, start, start, limit);
    assert(known_silent(states, v, start));
    if lag == 2 {
        assert(states[start + 1].digital_state_exact);
    }
}

/// A note ends at the first frame, behind the one at which its voice was first gated, from
/// which on the voice is not gated for two frames in a row.
pub proof fn notes_end_with_their_gate(
    states: Seq<ProgramFrame>,
    v: int,
    start: int,
    end: int,
    on: int,
    off: int,
)
    requires
        0 <= v < 3,
        0 <= start <= on < off,
        off + 1 < end <= states.len(),
        states[on].voices@[v].gate,
        forall|g: int| start <= g < on ==> !(#[trigger] states[g]).voices@[v].gate,
        !states[off].voices@[v].gate && !states[off + 1].voices@[v].gate,
        forall|g: int|
            on <= g < off ==> (#[trigger] states[g]).voices@[v].gate || states[g
                + 1].voices@[v].gate,
    ensures
        gate_end(states, v, start, end) == off,
{
    gate_found(states, v, start, on, end);
    off_found(states, v, on, off, end);
}

/// A note lasts as long as it is written: up to its release, or up to the end of the tune
/// if it is held until then, and never ends before it starts.
pub proof fn notes_last_until_their_release(event: NoteEvent, frame_count: u32)
    ensures
        match event.end_frame {
            Some(e) => event.start_frame <= e ==> authored_end(event, frame_count) == e,
            None => event.start_frame <= frame_count ==> authored_end(event, frame_count)
                == frame_count,
        },
        authored_end(event, frame_count) >= event.start_frame,
{
}

/// The release of a note keeps its waveform exactly where no two frames of it differ; a
/// release whose end was not observed does not count as steady.
pub proof fn steady_releases_do_not_change(event: NoteEvent, states: Seq<ProgramFrame>, f: int, g: int)
    requires
        event.voice.valid(),
        event.end_frame is Some,
        stable_release(event, states),
    ensures
        event.sound_end is Some,
        event.end_frame->0 <= f < event.sound_end->0 && event.end_frame->0 <= g
            < event.sound_end->0 && event.sound_end->0 <= states.len() ==> states[f].voices@[
            event.voice.0 - 1].waveform == states[g].voices@[event.voice.0 - 1].waveform,
{
}

} // verus!
