//! The chip state per play call, and the notes found in it.

use crate::analysis::program::VoiceId;
use crate::trace::{Adsr, RegisterWrite};
use vstd::prelude::*;

verus! {

/// The registers of one voice after a play call.
#[derive(Debug, Clone, Copy, PartialEq, Eq, Structural)]
pub struct VoiceFrame {
    pub freq: u16,
    /// The MIDI note nearest to the frequency; none for silence.
    pub pitch: Option<u8>,
    pub pulse_width: u16,
    pub gate: bool,
    pub sync: bool,
    pub ring_mod: bool,
    pub test: bool,
    /// The waveform bits of the control byte, `$10` to `$80`.
    pub waveform: u8,
    pub adsr: Adsr,
}

/// A voice whose registers were never written.
pub open spec fn untouched_voice() -> VoiceFrame {
    VoiceFrame {
        freq: 0,
        pitch: None,
        pulse_width: 0,
        gate: false,
        sync: false,
        ring_mod: false,
        test: false,
        waveform: 0,
        adsr: Adsr { attack: 0, decay: 0, sustain: 0, release: 0 },
    }
}

impl Default for VoiceFrame {
    fn default() -> (r: VoiceFrame)
        ensures
            r == untouched_voice(),
    {
        VoiceFrame {
            freq: 0,
            pitch: None,
            pulse_width: 0,
            gate: false,
            sync: false,
            ring_mod: false,
            test: false,
            waveform: 0,
            adsr: Adsr { attack: 0, decay: 0, sustain: 0, release: 0 },
        }
    }
}

/// What an envelope generator did.
#[derive(Debug, Clone, Copy, PartialEq, Eq, Structural)]
pub enum EnvelopeEventKind {
    EnteredAttack,
    EnteredDecaySustain,
    EnteredRelease,
    ReachedZero,
    LeftZero,
}

/// One event of an envelope generator within a call.
#[derive(Debug, Clone, Copy, PartialEq, Eq, Structural)]
pub struct EnvelopeEvent {
    pub offset: u32,
    pub kind: EnvelopeEventKind,
}

/// The measured digital state of one voice over a call.
#[derive(Debug)]
pub struct DigitalVoice {
    /// The envelope level at the end of the call.
    pub level: u8,
    pub peak_level: u8,
    pub end_level: u8,
    /// Cycles with a nonzero envelope.
    pub active_cycles: u64,
    pub events: Vec<EnvelopeEvent>,
    /// When the envelope first left zero within the call.
    pub first_nonzero: Option<u32>,
    pub sync_resets: u64,
    pub source_msb_edges: u64,
    pub combined_waveform_exact: bool,
    pub noise_state_poisoned: bool,
    pub noise_shift_register: u32,
}

impl DigitalVoice {
    /// Whether nothing happened to the voice.
    pub open spec fn is_idle(self) -> bool {
        &&& self.level == 0 && self.peak_level == 0 && self.end_level == 0
        &&& self.active_cycles == 0
        &&& self.events@.len() == 0
        &&& self.first_nonzero is None
        &&& self.sync_resets == 0 && self.source_msb_edges == 0
        &&& !self.combined_waveform_exact && !self.noise_state_poisoned
        &&& self.noise_shift_register == 0
    }
}

impl Default for DigitalVoice {
    fn default() -> (r: DigitalVoice)
        ensures
            r.is_idle(),
    {
        DigitalVoice {
            level: 0,
            peak_level: 0,
            end_level: 0,
            active_cycles: 0,
            events: Vec::new(),
            first_nonzero: None,
            sync_resets: 0,
            source_msb_edges: 0,
            combined_waveform_exact: false,
            noise_state_poisoned: false,
            noise_shift_register: 0,
        }
    }
}

/// Which bands the filter lets through.
#[derive(Debug, Clone, Copy, PartialEq, Eq, Structural)]
pub struct FilterMode {
    pub low_pass: bool,
    pub band_pass: bool,
    pub high_pass: bool,
}

/// The filter registers after a play call.
#[derive(Debug, Clone, Copy)]
pub struct FilterFrame {
    pub cutoff: u16,
    pub resonance: u8,
    pub mode: FilterMode,
    /// Which voices are routed through the filter.
    pub routing: [bool; 3],
}

/// The chip after one play call.
#[derive(Debug)]
pub struct ProgramFrame {
    pub voices: [VoiceFrame; 3],
    pub digital_voices: [DigitalVoice; 3],
    /// Whether the digital state is exact.
    pub digital_state_exact: bool,
    pub filter: FilterFrame,
    /// The master volume nibble.
    pub volume: u8,
    pub register_writes: Vec<RegisterWrite>,
}

impl Default for ProgramFrame {
    fn default() -> (r: ProgramFrame)
        ensures
            forall|v: int| 0 <= v < 3 ==> #[trigger] r.voices@[v] == untouched_voice(),
            forall|v: int| 0 <= v < 3 ==> (#[trigger] r.digital_voices@[v]).is_idle(),
            !r.digital_state_exact,
            r.filter.cutoff == 0 && r.filter.resonance == 0,
            r.filter.mode == (FilterMode { low_pass: false, band_pass: false, high_pass: false }),
            forall|v: int| 0 <= v < 3 ==> !#[trigger] r.filter.routing@[v],
            r.volume == 0,
            r.register_writes@.len() == 0,
    {
        ProgramFrame {
            voices: [VoiceFrame::default(), VoiceFrame::default(), VoiceFrame::default()],
            digital_voices: [
                DigitalVoice::default(),
                DigitalVoice::default(),
                DigitalVoice::default(),
            ],
            digital_state_exact: false,
            filter: FilterFrame {
                cutoff: 0,
                resonance: 0,
                mode: FilterMode { low_pass: false, band_pass: false, high_pass: false },
                routing: [false, false, false],
            },
            volume: 0,
            register_writes: Vec::new(),
        }
    }
}

/// One note of a voice.
#[derive(Debug, Clone, Copy, PartialEq, Eq, Structural)]
pub struct NoteEvent {
    pub voice: VoiceId,
    pub start_frame: u32,
    /// Where the note is released; none if it was still held at the end.
    pub end_frame: Option<u32>,
    /// Where its envelope reached zero; none if that was not observed.
    pub sound_end: Option<u32>,
    pub midi: u8,
    /// How far the pitch is off the note, in thousandths of a cent.
    pub millicents: i32,
    /// The MIDI velocity.
    pub velocity: u8,
}

impl NoteEvent {
    /// The frames of the note that lie within a trace.
    pub open spec fn frames_in(self, len: nat) -> (int, int) {
        let start = if self.start_frame < len {
            self.start_frame as int
        } else {
            len as int
        };
        let end = match self.end_frame {
            Some(e) => if e < len {
                e as int
            } else {
                len as int
            },
            None => len as int,
        };
        (
            start,
            if end < start {
                start
            } else {
                end
            },
        )
    }

    /// The frames of the note that lie within a trace.
    pub fn frame_range(&self, len: usize) -> (r: (usize, usize))
        ensures
            (r.0 as int, r.1 as int) == self.frames_in(len as nat),
            r.0 <= r.1 <= len,
    {
        let start: usize = if (self.start_frame as usize) < len {
            self.start_frame as usize
        } else {
            len
        };
        let end: usize = match self.end_frame {
            Some(e) => if (e as usize) < len {
                e as usize
            } else {
                len
            },
            None => len,
        };
        (
            start,
            if end < start {
                start
            } else {
                end
            },
        )
    }
}

/// A detected pitch or timbre effect.
#[derive(Debug, Clone, Copy, PartialEq, Eq, Structural)]
pub enum Effect {
    Vibrato,
    Portamento,
    Arpeggio,
    PulseSweep,
    FilterSweep,
}

/// Where an effect was detected, both ends included.
#[derive(Debug, Clone, Copy, PartialEq, Eq, Structural)]
pub struct EffectSpan {
    pub effect: Effect,
    pub voice: Option<VoiceId>,
    pub start_frame: u32,
    pub end_frame: u32,
}

/// Whether a span is of the effect and voice and overlaps the frames from
/// `start` up to `end`.
pub open spec fn span_overlaps(
    s: EffectSpan,
    effect: Effect,
    voice: VoiceId,
    start: u32,
    end: u32,
) -> bool {
    s.effect == effect && s.voice == Some(voice) && s.start_frame < end && s.end_frame >= start
}

/// The first span of an effect on a voice that overlaps a note.
pub open spec fn first_overlap(
    effects: Seq<EffectSpan>,
    effect: Effect,
    voice: VoiceId,
    start: u32,
    end: u32,
) -> Option<EffectSpan>
    decreases effects.len(),
{
    if effects.len() == 0 {
        None
    } else {
        match first_overlap(effects.drop_last(), effect, voice, start, end) {
            Some(s) => Some(s),
            None => if span_overlaps(effects.last(), effect, voice, start, end) {
                Some(effects.last())
            } else {
                None
            },
        }
    }
}

proof fn first_overlap_stays(
    effects: Seq<EffectSpan>,
    effect: Effect,
    voice: VoiceId,
    start: u32,
    end: u32,
    n: int,
)
    requires
        0 <= n <= effects.len(),
        first_overlap(effects.take(n), effect, voice, start, end) is Some,
    ensures
        first_overlap(effects, effect, voice, start, end) == first_overlap(
            effects.take(n),
            effect,
            voice,
            start,
            end,
        ),
    decreases effects.len(),
{
    if n == effects.len() {
        assert(effects.take(n) =~= effects);
    } else {
        assert(effects.drop_last().take(n) =~= effects.take(n));
        first_overlap_stays(effects.drop_last(), effect, voice, start, end, n);
    }
}

/// Finds the first span of an effect on a voice that overlaps a note.
pub fn overlapping_span(
    effects: &[EffectSpan],
    effect: Effect,
    voice: VoiceId,
    start: u32,
    end: u32,
) -> (r: Option<EffectSpan>)
    ensures
        r == first_overlap(effects@, effect, voice, start, end),
{
    let mut i: usize = 0;
    assert(effects@.take(0) =~= Seq::<EffectSpan>::empty());
    while i < effects.len()
        invariant
            i <= effects@.len(),
            first_overlap(effects@.take(i as int), effect, voice, start, end) is None,
        decreases effects@.len() - i,
    {
        assert(effects@.take(i + 1).drop_last() =~= effects@.take(i as int));
        let s: EffectSpan = effects[i];
        let on_voice: bool = match s.voice {
            Some(v) => v == voice,
            None => false,
        };
        if s.effect == effect && on_voice && s.start_frame < end && s.end_frame >= start {
            proof {
                first_overlap_stays(effects@, effect, voice, start, end, i + 1);
            }
            return Some(s);
        }
        i += 1;
    }
    assert(effects@.take(effects@.len() as int) =~= effects@);
    None
}

/// The frequency of a voice at a frame; none past the end or for silence.
pub open spec fn frequency_at(states: Seq<ProgramFrame>, v: int, frame: u32) -> Option<u16> {
    if frame < states.len() && states[frame as int].voices@[v].freq != 0 {
        Some(states[frame as int].voices@[v].freq)
    } else {
        None
    }
}

/// The frequency of a voice at a frame; none past the end or for silence.
pub fn freq_at(states: &[ProgramFrame], voice_index: usize, frame: u32) -> (r: Option<u16>)
    requires
        voice_index < 3,
    ensures
        r == frequency_at(states@, voice_index as int, frame),
{
    if (frame as usize) < states.len() {
        let f: u16 = states[frame as usize].voices[voice_index].freq;
        if f != 0 {
            return Some(f);
        }
    }
    None
}

/// The span that is found is the first of a list that is of the effect and of the voice and
/// shares a frame with the note; none is found where none does.
pub proof fn the_first_overlapping_span_is_found(
    effects: Seq<EffectSpan>,
    effect: Effect,
    voice: VoiceId,
    start: u32,
    end: u32,
    i: int,
)
    requires
        0 <= i < effects.len(),
    ensures
        ({
            let here = effects[i].effect == effect && effects[i].voice == Some(voice)
                && effects[i].start_frame < end && start <= effects[i].end_frame;
            &&& here ==> first_overlap(effects, effect, voice, start, end) is Some
            &&& here && (forall|j: int|
                0 <= j < i ==> !((#[trigger] effects[j]).effect == effect && effects[j].voice == Some(
                    voice,
                ) && effects[j].start_frame < end && start <= effects[j].end_frame))
                ==> first_overlap(effects, effect, voice, start, end) == Some(effects[i])
        }),
        first_overlap(effects, effect, voice, start, end) matches Some(s) ==> effects.contains(s)
            && s.effect == effect && s.voice == Some(voice) && s.start_frame < end && start
            <= s.end_frame,
    decreases effects.len(),
{
    let t = effects.drop_last();
    if i < t.len() {
        the_first_overlapping_span_is_found(t, effect, voice, start, end, i);
        assert(t[i] == effects[i]);
        if forall|j: int|
            0 <= j < i ==> !((#[trigger] effects[j]).effect == effect && effects[j].voice == Some(
                voice,
            ) && effects[j].start_frame < end && start <= effects[j].end_frame) {
            assert forall|j: int| 0 <= j < i implies !((#[trigger] t[j]).effect == effect
                && t[j].voice == Some(voice) && t[j].start_frame < end && start <= t[j].end_frame) by {
                assert(t[j] == effects[j]);
            }
        }
    } else {
        if forall|j: int|
            0 <= j < i ==> !((#[trigger] effects[j]).effect == effect && effects[j].voice == Some(
                voice,
            ) && effects[j].start_frame < end && start <= effects[j].end_frame) {
            assert forall|j: int| 0 <= j < t.len() implies !span_overlaps(
                #[trigger] t[j],
                effect,
                voice,
                start,
                end,
            ) by {
                assert(t[j] == effects[j]);
            }
            no_overlap(t, effect, voice, start, end);
        }
    }
    found_overlap_is_one(effects, effect, voice, start, end);
}

proof fn no_overlap(effects: Seq<EffectSpan>, effect: Effect, voice: VoiceId, start: u32, end: u32)
    requires
        forall|j: int|
            0 <= j < effects.len() ==> !span_overlaps(
                #[trigger] effects[j],
                effect,
                voice,
                start,
                end,
            ),
    ensures
        first_overlap(effects, effect, voice, start, end) is None,
    decreases effects.len(),
{
    if effects.len() > 0 {
        let t = effects.drop_last();
        assert forall|j: int| 0 <= j < t.len() implies !span_overlaps(
            #[trigger] t[j],
            effect,
            voice,
            start,
            end,
        ) by {
            assert(t[j] == effects[j]);
        }
        assert(!span_overlaps(effects[effects.len() - 1], effect, voice, start, end));
        no_overlap(t, effect, voice, start, end);
    }
}

proof fn found_overlap_is_one(
    effects: Seq<EffectSpan>,
    effect: Effect,
    voice: VoiceId,
    start: u32,
    end: u32,
)
    ensures
        first_overlap(effects, effect, voice, start, end) matches Some(s) ==> effects.contains(s)
            && span_overlaps(s, effect, voice, start, end),
    decreases effects.len(),
{
    if effects.len() > 0 {
        let t = effects.drop_last();
        found_overlap_is_one(t, effect, voice, start, end);
        match first_overlap(t, effect, voice, start, end) {
            Some(s) => {
                let j = choose|j: int| 0 <= j < t.len() && t[j] == s;
                assert(effects[j] == s);
            },
            None => {
                assert(effects[effects.len() - 1] == effects.last());
            },
        }
    }
}

/// The frames of a note within a trace are those from its start up to its release, or up to
/// the end of the trace if it was still held then.
pub proof fn notes_have_the_frames_up_to_their_release(event: NoteEvent, len: nat, f: int)
    ensures
        event.frames_in(len).0 <= f < event.frames_in(len).1 <==> event.start_frame <= f < len && (
        event.end_frame is Some ==> f < event.end_frame->0),
{
}

} // verus!
