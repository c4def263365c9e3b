//! Which instrument a track gets.

use crate::analysis::frame::{FilterMode, NoteEvent, ProgramFrame};
use crate::analysis::patch::{AuthoredPwm, DrumSubclass, Patch, PatchVoiceProfile};
use crate::analysis::program::{SystemClock, VoiceId};
use crate::chars::from_chars;
use crate::header::SidModel;
use crate::numerals::push_text;
use crate::trace::Adsr;
use super::super::emission::{arpeggiator_agrees, segments_fit, track_arpeggio};
use super::super::naming::{
    full_name, number_text, plan_arpeggiated, plan_name, plan_role, push_number, role_of,
    voice_text,
};
use super::super::oscillator::{median, median_of, noise_frequencies, program_noise_frequencies};
use super::super::ownership::{plans_fit, timeline_fits};
use super::super::sorting::{insertion_point, sorted_by, sorting_keeps};
use super::super::timbre::{
    copy_optional, observed, observed_waveform_program, optional_view, tuned_percussion,
    use_generic_percussion, InstrumentRole, Waveform,
};
use super::super::tracks::{sounds_at, Segment, SynthNote, TrackPlan};
use super::refine::{
    add_output_lowpass, as_measured, common_seed, enable_measured_envelope,
    enforce_measured_oscillators, find_common_seed, find_static_source, frames_are_exact,
    measure_hardware, rings_somewhere, static_source, strip_filter_copy, syncs_somewhere,
    with_held_envelopes, with_output_lowpass, without_filter, HardwareEvidence,
};
use super::{
    built_connections, built_modules, mask_label, percussion_connections, percussion_modules,
    sid_percussion_instrument, simple_source, text_view, EnvelopeSetting, FilterSpec, Instrument,
    InstrumentView, NoiseAccent, SidSource, SourceView, Treatment,
};
use vstd::prelude::*;

verus! {

/// How many voices of the chip carry tracks; one at least.
pub open spec fn voice_count(plans: Seq<TrackPlan>) -> int {
    let n = (if carries(plans, VoiceId(1)) {
        1int
    } else {
        0
    }) + (if carries(plans, VoiceId(2)) {
        1int
    } else {
        0
    }) + (if carries(plans, VoiceId(3)) {
        1int
    } else {
        0
    });
    if n < 1 {
        1
    } else {
        n
    }
}

/// Whether a voice carries a track.
pub open spec fn carries(plans: Seq<TrackPlan>, voice: VoiceId) -> bool {
    exists|p: int| 0 <= p < plans.len() && (#[trigger] plans[p]).voice == voice
}

fn voice_carries(plans: &[TrackPlan], voice: VoiceId) -> (r: bool)
    ensures
        r == carries(plans@, voice),
{
    let mut p: usize = 0;
    while p < plans.len()
        invariant
            p <= plans@.len(),
            forall|q: int| 0 <= q < p ==> (#[trigger] plans@[q]).voice != voice,
        decreases plans@.len() - p,
    {
        if plans[p].voice == voice {
            return true;
        }
        p += 1;
    }
    false
}

/// Counts the voices that carry tracks: the mix shares its headroom among them.
pub fn active_voices(plans: &[TrackPlan]) -> (r: u32)
    ensures
        r == voice_count(plans@),
        1 <= r <= 3,
{
    let mut n: u32 = 0;
    if voice_carries(plans, VoiceId(1)) {
        n += 1;
    }
    if voice_carries(plans, VoiceId(2)) {
        n += 1;
    }
    if voice_carries(plans, VoiceId(3)) {
        n += 1;
    }
    if n < 1 {
        1
    } else {
        n
    }
}

/// How much quieter a track is mixed, in thousandths, and whether it is a pulse
/// with a triangle, which is mixed quieter still.
#[derive(Debug, Clone, Copy, PartialEq, Eq, Structural)]
pub struct MixTrim {
    pub role: u16,
    pub triangle_pulse: bool,
}

/// How much quieter a track is mixed.
pub open spec fn trim_of(plan: TrackPlan, patches: Seq<Patch>) -> MixTrim {
    if plan.drum_drop {
        MixTrim { role: 350, triangle_pulse: false }
    } else {
        let shape = plan.shape.view();
        MixTrim {
            role: match role_of(plan.segments@, patches) {
                InstrumentRole::Lead => if track_arpeggio(plan.segments@, patches) is Some {
                    450u16
                } else {
                    700
                },
                InstrumentRole::Drum(_) => 750,
                _ => 1000,
            },
            triangle_pulse: shape.waveform == Waveform::Pulse && shape.secondary_waveform == Some(
                Waveform::Triangle,
            ),
        }
    }
}

/// How much quieter a track is mixed.
pub fn plan_mix_trim(plan: &TrackPlan, patches: &[Patch]) -> (r: MixTrim)
    requires
        segments_fit(plan.segments@, patches@),
    ensures
        r == trim_of(*plan, patches@),
{
    if plan.drum_drop {
        return MixTrim { role: 350, triangle_pulse: false };
    }
    let role: u16 = match plan_role(plan, patches) {
        InstrumentRole::Lead => if plan_arpeggiated(plan, patches) {
            450
        } else {
            700
        },
        InstrumentRole::Drum(_) => 750,
        _ => 1000,
    };
    let second: bool = match plan.shape.secondary_waveform {
        Some(w) => w == Waveform::Triangle,
        None => false,
    };
    MixTrim { role, triangle_pulse: plan.shape.waveform == Waveform::Pulse && second }
}

/// How many notes a drum has to play to get a low-pass of its own.
pub const DRUM_OUTPUT_FILTER_MIN_NOTES: usize = 32;

/// The cutoff of the low-pass before a track's output, in hertz.
pub open spec fn output_cutoff(plan: TrackPlan, patches: Seq<Patch>) -> Option<u32> {
    if plan.drum_drop {
        Some(2000)
    } else {
        match role_of(plan.segments@, patches) {
            InstrumentRole::Lead => if track_arpeggio(plan.segments@, patches) is Some {
                Some(4000)
            } else {
                None
            },
            InstrumentRole::Drum(_) => if plan.timeline@.len() >= DRUM_OUTPUT_FILTER_MIN_NOTES {
                Some(1800)
            } else {
                None
            },
            _ => None,
        }
    }
}

/// The cutoff of the low-pass before a track's output, if it has one.
pub fn plan_output_cutoff(plan: &TrackPlan, patches: &[Patch]) -> (r: Option<u32>)
    requires
        segments_fit(plan.segments@, patches@),
    ensures
        r == output_cutoff(*plan, patches@),
{
    if plan.drum_drop {
        return Some(2000);
    }
    match plan_role(plan, patches) {
        InstrumentRole::Lead => if plan_arpeggiated(plan, patches) {
            Some(4000)
        } else {
            None
        },
        InstrumentRole::Drum(_) => if plan.timeline.len() >= DRUM_OUTPUT_FILTER_MIN_NOTES {
            Some(1800)
        } else {
            None
        },
        _ => None,
    }
}

/// The key of a detuning for sorting.
pub open spec fn cents_key() -> spec_fn(i32) -> int {
    |x: i32| x as int
}

/// The detunings of the notes of a timeline, in thousandths of a cent.
pub open spec fn timeline_cents(timeline: Seq<(usize, usize)>, notes: Seq<SynthNote>) -> Seq<i32> {
    Seq::new(timeline.len(), |k: int| notes[timeline[k].1 as int].event.millicents)
}

/// The furthest that an instrument can be detuned, in half thousandths of a cent.
pub const DETUNE_LIMIT: i64 = 200_000;

/// The detuning of a track in half thousandths of a cent: the median over its
/// notes, the mean of two middle ones, within the limit.
pub open spec fn track_detune(timeline: Seq<(usize, usize)>, notes: Seq<SynthNote>) -> int {
    let sorted = sorted_by(timeline_cents(timeline, notes), cents_key());
    let n = timeline.len() as int;
    if n == 0 {
        0
    } else {
        let twice = if n % 2 == 0 {
            sorted[n / 2 - 1] + sorted[n / 2]
        } else {
            2 * sorted[n / 2]
        };
        if twice < -DETUNE_LIMIT {
            -DETUNE_LIMIT
        } else if twice > DETUNE_LIMIT {
            DETUNE_LIMIT as int
        } else {
            twice
        }
    }
}

/// The detuning of a track in half thousandths of a cent.
pub fn plan_detune_cents(plan: &TrackPlan, notes: &[SynthNote]) -> (r: i64)
    requires
        timeline_fits(plan.timeline@, notes@),
    ensures
        r == track_detune(plan.timeline@, notes@),
        -DETUNE_LIMIT <= r <= DETUNE_LIMIT,
{
    let ghost key = cents_key();
    let ghost cents = timeline_cents(plan.timeline@, notes@);
    let mut sorted: Vec<i32> = Vec::new();
    let mut k: usize = 0;
    assert(cents.take(0) =~= Seq::<i32>::empty());
    while k < plan.timeline.len()
        invariant
            k <= plan.timeline@.len(),
            key == cents_key(),
            cents == timeline_cents(plan.timeline@, notes@),
            timeline_fits(plan.timeline@, notes@),
            sorted@ == sorted_by(cents.take(k as int), key),
            sorted@.len() == k,
        decreases plan.timeline@.len() - k,
    {
        proof {
            assert(cents.take(k + 1).drop_last() =~= cents.take(k as int));
            sorting_keeps(cents.take(k + 1), key);
            assert(plan.timeline@[k as int].1 < notes@.len());
        }
        let x: i32 = notes[plan.timeline[k].1].event.millicents;
        let mut at: usize = sorted.len();
        while at > 0 && sorted[at - 1] > x
            invariant
                at <= sorted@.len(),
                key == cents_key(),
                forall|j: int| at <= j < sorted@.len() ==> key(#[trigger] sorted@[j]) > x,
            decreases at,
        {
            at -= 1;
        }
        proof {
            insertion_point(sorted@, x, key, at as int);
        }
        sorted.insert(at, x);
        k += 1;
    }
    assert(cents.take(cents.len() as int) =~= cents);
    let n: usize = sorted.len();
    if n == 0 {
        return 0;
    }
    let mid: usize = n / 2;
    let twice: i64 = if n % 2 == 0 {
        sorted[mid - 1] as i64 + sorted[mid] as i64
    } else {
        2 * sorted[mid] as i64
    };
    if twice < -DETUNE_LIMIT {
        -DETUNE_LIMIT
    } else if twice > DETUNE_LIMIT {
        DETUNE_LIMIT
    } else {
        twice
    }
}

/// The envelope of an instrument that nothing is known of.
pub open spec fn plain_adsr() -> Adsr {
    Adsr { attack: 0, decay: 8, sustain: 8, release: 8 }
}

/// A plain pulse.
pub open spec fn generic_pulse(
    id: u32,
    voice: VoiceId,
    model: SidModel,
    clock: SystemClock,
) -> InstrumentView {
    let s = simple_source(4, 2048, model, clock);
    InstrumentView {
        id,
        name: voice_text(voice.0) + " (SID pulse)"@,
        role: InstrumentRole::Untagged,
        detune: 0,
        velocity_sensitive: true,
        effects: Seq::empty(),
        treatment: Treatment::Faithful,
        modules: built_modules(s, EnvelopeSetting::Adsr(plain_adsr()), None, None, None),
        connections: built_connections(s, None, None, false),
    }
}

fn voice_name(voice: VoiceId, rest: &str) -> (r: String)
    ensures
        r@ == voice_text(voice.0) + rest@,
{
    let mut out: Vec<char> = Vec::new();
    push_text(&mut out, "V");
    push_number(&mut out, voice.0 as u64);
    push_text(&mut out, rest);
    assert(out@ =~= voice_text(voice.0) + rest@);
    from_chars(out.as_slice())
}

/// Builds a plain pulse.
pub fn generic_pulse_instrument(
    id: u32,
    voice: VoiceId,
    model: SidModel,
    clock: SystemClock,
) -> (r: Instrument)
    ensures
        r.view() == generic_pulse(id, voice, model, clock),
{
    let envelope: EnvelopeSetting = EnvelopeSetting::Adsr(
        Adsr { attack: 0, decay: 8, sustain: 8, release: 8 },
    );
    Instrument::build(
        id,
        voice_name(voice, " (SID pulse)"),
        InstrumentRole::Untagged,
        SidSource::simple(4, 2048, model, clock),
        envelope,
        None,
        None,
        0,
        None,
    )
}

/// The frequencies of a voice at all frames of the first `k` notes of a
/// timeline, where it is not silent.
pub open spec fn heard_frequencies(
    timeline: Seq<(usize, usize)>,
    notes: Seq<SynthNote>,
    states: Seq<ProgramFrame>,
    v: int,
    k: int,
) -> Seq<u16>
    decreases k,
{
    if k <= 0 {
        Seq::empty()
    } else {
        let range = notes[timeline[k - 1].1 as int].event.frames_in(states.len());
        heard_frequencies(timeline, notes, states, v, k - 1) + frequencies_in(
            states,
            v,
            range.0,
            range.1,
        )
    }
}

/// The frequencies of a voice from one frame to another, where it is not silent.
pub open spec fn frequencies_in(states: Seq<ProgramFrame>, v: int, start: int, end: int) -> Seq<u16>
    decreases end - start,
{
    if end <= start {
        Seq::empty()
    } else {
        let before = frequencies_in(states, v, start, end - 1);
        if states[end - 1].voices@[v].freq != 0 {
            before.push(states[end - 1].voices@[v].freq)
        } else {
            before
        }
    }
}

fn collect_frequencies(plan: &TrackPlan, notes: &[SynthNote], states: &[ProgramFrame], v: usize) -> (r:
    Vec<u16>)
    requires
        v < 3,
        timeline_fits(plan.timeline@, notes@),
    ensures
        r@ == heard_frequencies(
            plan.timeline@,
            notes@,
            states@,
            v as int,
            plan.timeline@.len() as int,
        ),
{
    let mut out: Vec<u16> = Vec::new();
    let mut k: usize = 0;
    while k < plan.timeline.len()
        invariant
            k <= plan.timeline@.len(),
            v < 3,
            timeline_fits(plan.timeline@, notes@),
            out@ == heard_frequencies(plan.timeline@, notes@, states@, v as int, k as int),
        decreases plan.timeline@.len() - k,
    {
        assert(plan.timeline@[k as int].1 < notes@.len());
        let range: (usize, usize) = notes[plan.timeline[k].1].event.frame_range(states.len());
        let ghost before = out@;
        let mut f: usize = range.0;
        assert(before + frequencies_in(states@, v as int, range.0 as int, range.0 as int)
            =~= before);
        while f < range.1
            invariant
                range.0 <= f <= range.1 <= states@.len(),
                v < 3,
                out@ == before + frequencies_in(states@, v as int, range.0 as int, f as int),
            decreases range.1 - f,
        {
            let here: u16 = states[f].voices[v].freq;
            let ghost so_far = frequencies_in(states@, v as int, range.0 as int, f as int);
            if here != 0 {
                out.push(here);
                assert(out@ =~= before + so_far.push(here));
            }
            f += 1;
        }
        k += 1;
    }
    out
}

/// The instrument of a track without a sound, as the chip plays its first note.
pub open spec fn raw_trace(
    plan: TrackPlan,
    notes: Seq<SynthNote>,
    states: Seq<ProgramFrame>,
    model: SidModel,
    clock: SystemClock,
    filter: Option<FilterSpec>,
) -> InstrumentView {
    let v = plan.voice.0 - 1;
    let plain = generic_pulse(plan.instrument_id, plan.voice, model, clock);
    if plan.timeline@.len() == 0 {
        plain
    } else {
        let f = notes[plan.timeline@[0].1 as int].event.start_frame as int;
        if f >= states.len() || states[f].voices@[v].waveform / 16 == 0 {
            plain
        } else {
            let shape = plan.shape.view();
            let s = SourceView {
                ring_mod: shape.has_ring,
                hard_sync: shape.has_sync,
                ..simple_source(
                    states[f].voices@[v].waveform / 16,
                    states[f].voices@[v].pulse_width,
                    model,
                    clock,
                )
            };
            let used = if states[f].filter.routing@[v] {
                filter
            } else {
                None
            };
            let neighbour = median(
                heard_frequencies(
                    plan.timeline@,
                    notes,
                    states,
                    (v + 2) % 3,
                    plan.timeline@.len() as int,
                ),
            );
            InstrumentView {
                id: plan.instrument_id,
                name: voice_text(plan.voice.0) + " raw SID"@,
                role: InstrumentRole::Untagged,
                detune: 0,
                velocity_sensitive: true,
                effects: Seq::empty(),
                treatment: Treatment::Faithful,
                modules: built_modules(
                    s,
                    EnvelopeSetting::Adsr(states[f].voices@[v].adsr),
                    used,
                    neighbour,
                    None,
                ),
                connections: built_connections(s, used, neighbour, false),
            }
        }
    }
}

/// Builds the instrument of a track without a sound. `filter` is how the chip's
/// filter is set at the start of the first note.
pub fn raw_trace_instrument(
    plan: &TrackPlan,
    notes: &[SynthNote],
    states: &[ProgramFrame],
    model: SidModel,
    clock: SystemClock,
    filter: Option<FilterSpec>,
) -> (r: Instrument)
    requires
        plan.voice.valid(),
        timeline_fits(plan.timeline@, notes@),
    ensures
        r.view() == raw_trace(*plan, notes@, states@, model, clock, filter),
{
    let v: usize = plan.voice.to_index();
    if plan.timeline.len() == 0 {
        return generic_pulse_instrument(plan.instrument_id, plan.voice, model, clock);
    }
    assert(plan.timeline@[0].1 < notes@.len());
    let f: usize = notes[plan.timeline[0].1].event.start_frame as usize;
    if f >= states.len() || states[f].voices[v].waveform / 16 == 0 {
        return generic_pulse_instrument(plan.instrument_id, plan.voice, model, clock);
    }
    let state: &ProgramFrame = &states[f];
    let mut source: SidSource = SidSource::simple(
        state.voices[v].waveform / 16,
        state.voices[v].pulse_width,
        model,
        clock,
    );
    source.ring_mod = plan.shape.has_ring;
    source.hard_sync = plan.shape.has_sync;
    let used: Option<FilterSpec> = if state.filter.routing[v] {
        filter
    } else {
        None
    };
    let heard: Vec<u16> = collect_frequencies(plan, notes, states, (v + 2) % 3);
    let neighbour: Option<u16> = median_of(heard.as_slice());
    Instrument::build(
        plan.instrument_id,
        voice_name(plan.voice, " raw SID"),
        InstrumentRole::Untagged,
        source,
        EnvelopeSetting::Adsr(state.voices[v].adsr),
        used,
        neighbour,
        0,
        None,
    )
}

/// What is known of a sound beside its notes: the range of its pulse width, the
/// width that its program starts with, its filter, the voice that modulates it,
/// and the script that moves its pulse width.
#[derive(Debug)]
pub struct SoundInput {
    pub pulse_range: (u16, u16),
    /// The pulse width that an authored program starts with.
    pub pulse_start: Option<u16>,
    pub filter: Option<FilterSpec>,
    pub neighbour: Option<u16>,
    pub noise: Option<NoiseAccent>,
    pub script: Option<String>,
    /// The detuning in cents, as a single-precision bit pattern.
    pub detune: u32,
}

/// The pulse width of a sound: the start of its program, the middle of its
/// range, or a square.
pub open spec fn sound_pulse(waveform: u8, input: SoundInput) -> u16 {
    if input.script is Some && input.pulse_start is Some {
        input.pulse_start->0 % 4096
    } else if waveform / 0x40 % 2 == 1 {
        let mid = (input.pulse_range.0 + input.pulse_range.1) / 2;
        if mid < 4095 {
            mid as u16
        } else {
            4095
        }
    } else {
        2048
    }
}

/// The pulse width of a sound.
pub fn choose_pulse(waveform: u8, input: &SoundInput) -> (r: u16)
    ensures
        r == sound_pulse(waveform, *input),
{
    if input.script.is_some() {
        if let Some(w) = input.pulse_start {
            return w % 4096;
        }
    }
    if waveform / 0x40 % 2 == 1 {
        let mid: u32 = (input.pulse_range.0 as u32 + input.pulse_range.1 as u32) / 2;
        if mid < 4095 {
            mid as u16
        } else {
            4095
        }
    } else {
        2048
    }
}

/// The source of a sound: the loop that was observed of it, or else the program
/// of its notes, which plays once.
pub open spec fn sound_source(
    patch: Patch,
    profile: PatchVoiceProfile,
    program: Option<Seq<u8>>,
    frequencies: Seq<u16>,
    model: SidModel,
    clock: SystemClock,
    input: SoundInput,
) -> SourceView {
    let looped = observed(profile);
    SourceView {
        mask: patch.waveform / 16,
        pw_reg: sound_pulse(patch.waveform, input),
        seq: if looped is Some {
            looped
        } else {
            program
        },
        seq_frequencies: frequencies,
        seq_hold: looped is None,
        ring_mod: profile.ring_mod,
        hard_sync: profile.hard_sync,
        model,
        clock,
    }
}

/// The name of an instrument after its sound.
pub open spec fn sound_name(voice: VoiceId, patch: u16, mask: u8, sequenced: bool) -> Seq<char> {
    let base = voice_text(voice.0) + " patch "@ + number_text(patch as nat) + " ("@ + mask_label(
        mask,
    );
    if sequenced {
        base + " seq)"@
    } else {
        base + ")"@
    }
}

/// The instrument of a sound.
pub open spec fn sound_instrument(
    id: u32,
    voice: VoiceId,
    patch: Patch,
    profile: PatchVoiceProfile,
    program: Option<Seq<u8>>,
    frequencies: Seq<u16>,
    model: SidModel,
    clock: SystemClock,
    input: SoundInput,
) -> InstrumentView {
    let s = sound_source(patch, profile, program, frequencies, model, clock, input);
    InstrumentView {
        id,
        name: sound_name(voice, patch.id, s.mask, s.seq is Some),
        role: InstrumentRole::of_tags(patch.role_tags),
        detune: input.detune,
        velocity_sensitive: true,
        effects: Seq::empty(),
        treatment: Treatment::Faithful,
        modules: built_modules(
            s,
            EnvelopeSetting::Adsr(patch.adsr),
            input.filter,
            input.neighbour,
            text_view(input.script),
        ),
        connections: built_connections(
            s,
            input.filter,
            input.neighbour,
            input.script is Some,
        ),
    }
}

fn copy_script(s: &Option<String>) -> (r: Option<String>)
    ensures
        text_view(r) == text_view(*s),
{
    match s {
        Some(t) => Some(from_chars(crate::chars::to_chars(t.as_str()).as_slice())),
        None => None,
    }
}

/// Builds the instrument of a sound.
pub fn instrument_from_patch(
    id: u32,
    voice: VoiceId,
    patch: &Patch,
    profile: &PatchVoiceProfile,
    program: &Option<Vec<u8>>,
    frequencies: Vec<u16>,
    model: SidModel,
    clock: SystemClock,
    input: &SoundInput,
) -> (r: Instrument)
    requires
        frequencies@.len() == 16,
    ensures
        r.view() == sound_instrument(
            id,
            voice,
            *patch,
            *profile,
            optional_view(*program),
            frequencies@,
            model,
            clock,
            *input,
        ),
{
    let looped: Option<Vec<u8>> = observed_waveform_program(profile);
    let hold: bool = looped.is_none();
    let seq: Option<Vec<u8>> = match looped {
        Some(s) => Some(s),
        None => copy_optional(program),
    };
    let source: SidSource = SidSource {
        mask: patch.waveform / 16,
        pw_reg: choose_pulse(patch.waveform, input),
        seq,
        seq_frequencies: frequencies,
        seq_hold: hold,
        ring_mod: profile.ring_mod,
        hard_sync: profile.hard_sync,
        model,
        clock,
    };
    let mut name: Vec<char> = Vec::new();
    push_text(&mut name, "V");
    push_number(&mut name, voice.0 as u64);
    push_text(&mut name, " patch ");
    push_number(&mut name, patch.id as u64);
    push_text(&mut name, " (");
    push_text(&mut name, source.waveform_label());
    if source.seq.is_some() {
        push_text(&mut name, " seq)");
    } else {
        push_text(&mut name, ")");
    }
    assert(name@ =~= sound_name(voice, patch.id, source.mask, source.seq is Some));
    Instrument::build(
        id,
        from_chars(name.as_slice()),
        InstrumentRole::from_role_tags(&patch.role_tags),
        source,
        EnvelopeSetting::Adsr(patch.adsr),
        input.filter,
        input.neighbour,
        input.detune,
        copy_script(&input.script),
    )
}

/// The sound of a track: that of its first segment, with its profile.
pub open spec fn track_sound(segments: Seq<Segment>) -> Option<(usize, usize)> {
    if segments.len() > 0 && segments[0].patch is Some && segments[0].profile is Some {
        Some((segments[0].patch->0, segments[0].profile->0))
    } else {
        None
    }
}

/// The instrument that a track gets at first.
pub open spec fn first_instrument(
    plan: TrackPlan,
    notes: Seq<SynthNote>,
    patches: Seq<Patch>,
    states: Seq<ProgramFrame>,
    model: SidModel,
    clock: SystemClock,
    input: SoundInput,
) -> InstrumentView {
    if plan.drum_drop {
        InstrumentView {
            id: plan.instrument_id,
            name: voice_text(plan.voice.0) + " drum (drop)"@,
            role: InstrumentRole::Drum(DrumSubclass::Tom),
            detune: 0,
            velocity_sensitive: true,
            effects: Seq::empty(),
            treatment: Treatment::Faithful,
            modules: percussion_modules(EnvelopeSetting::DrumBody, input.noise, model, clock),
            connections: percussion_connections(),
        }
    } else {
        match track_sound(plan.segments@) {
            Some(sound) => {
                let patch = patches[sound.0 as int];
                let profile = patch.voices@[sound.1 as int];
                if tuned_percussion(patch) && plan.waveform_program is None && observed(
                    profile,
                ) is None {
                    InstrumentView {
                        id: plan.instrument_id,
                        name: voice_text(plan.voice.0) + " perc"@,
                        role: InstrumentRole::of_tags(patch.role_tags),
                        detune: 0,
                        velocity_sensitive: true,
                        effects: Seq::empty(),
                        treatment: Treatment::Faithful,
                        modules: percussion_modules(
                            EnvelopeSetting::Adsr(patch.adsr),
                            input.noise,
                            model,
                            clock,
                        ),
                        connections: percussion_connections(),
                    }
                } else {
                    sound_instrument(
                        plan.instrument_id,
                        plan.voice,
                        patch,
                        profile,
                        optional_view(plan.waveform_program),
                        noise_frequencies(
                            optional_view(plan.waveform_program),
                            plan.timeline@,
                            notes,
                            states,
                            plan.voice.0 - 1,
                        ),
                        model,
                        clock,
                        input,
                    )
                }
            },
            None => raw_trace(plan, notes, states, model, clock, input.filter),
        }
    }
}

/// Builds the instrument that a track gets at first: a drum for drum drops and
/// for tuned percussion without a program, or else what its sound or its first
/// note asks for.
pub fn build_first_instrument(
    plan: &TrackPlan,
    notes: &[SynthNote],
    patches: &[Patch],
    states: &[ProgramFrame],
    model: SidModel,
    clock: SystemClock,
    input: &SoundInput,
) -> (r: Instrument)
    requires
        plan.voice.valid(),
        timeline_fits(plan.timeline@, notes@),
        segments_fit(plan.segments@, patches@),
    ensures
        r.view() == first_instrument(*plan, notes@, patches@, states@, model, clock, *input),
{
    if plan.drum_drop {
        return sid_percussion_instrument(
            plan.instrument_id,
            voice_name(plan.voice, " drum (drop)"),
            InstrumentRole::Drum(DrumSubclass::Tom),
            EnvelopeSetting::DrumBody,
            input.noise,
            model,
            clock,
        );
    }
    if plan.segments.len() > 0 {
        assert(plan.segments@[0].patch matches Some(p) ==> p < patches@.len());
        if let Some(p) = plan.segments[0].patch {
            if let Some(q) = plan.segments[0].profile {
                let patch: &Patch = &patches[p];
                let profile: &PatchVoiceProfile = &patch.voices[q];
                let program: Option<&[u8]> = match &plan.waveform_program {
                    Some(s) => Some(s.as_slice()),
                    None => None,
                };
                if use_generic_percussion(patch, profile, program) {
                    return sid_percussion_instrument(
                        plan.instrument_id,
                        voice_name(plan.voice, " perc"),
                        InstrumentRole::from_role_tags(&patch.role_tags),
                        EnvelopeSetting::Adsr(patch.adsr),
                        input.noise,
                        model,
                        clock,
                    );
                }
                return instrument_from_patch(
                    plan.instrument_id,
                    plan.voice,
                    patch,
                    profile,
                    &plan.waveform_program,
                    program_noise_frequencies(plan, notes, states),
                    model,
                    clock,
                    input,
                );
            }
        }
    }
    raw_trace_instrument(plan, notes, states, model, clock, input.filter)
}

/// What is known of a track beside its notes.
#[derive(Debug)]
pub struct InstrumentInput {
    pub sound: SoundInput,
    /// Whether the track plays its measured envelopes.
    pub measured_envelope: bool,
    /// Of each entry of the timeline, whether its oscillator was reset.
    pub resets: Vec<bool>,
    /// Of each entry of the timeline, the steady frequency of a silent voice that
    /// modulates it.
    pub silent_sources: Vec<Option<u16>>,
}

/// The coupling between voices during a track's notes.
pub open spec fn coupling(
    plan: TrackPlan,
    notes: Seq<SynthNote>,
    states: Seq<ProgramFrame>,
) -> HardwareEvidence {
    let v = plan.voice.0 - 1;
    HardwareEvidence {
        exact: frames_are_exact(plan.timeline@, notes, states),
        sync_active: syncs_somewhere(plan.timeline@, notes, states, v),
        ring_active: rings_somewhere(plan.timeline@, notes, states, v),
    }
}

/// The instrument of a track: the one that it gets at first, fitted to what was
/// measured, named after the track, and without a filter of its own if all
/// tracks share one.
pub open spec fn track_instrument(
    plan: TrackPlan,
    notes: Seq<SynthNote>,
    patches: Seq<Patch>,
    states: Seq<ProgramFrame>,
    model: SidModel,
    clock: SystemClock,
    input: InstrumentInput,
    shared_filter: bool,
) -> InstrumentView {
    let first = first_instrument(plan, notes, patches, states, model, clock, input.sound);
    let held = if input.measured_envelope {
        with_held_envelopes(first)
    } else {
        first
    };
    let limited = match output_cutoff(plan, patches) {
        Some(cutoff) => with_output_lowpass(held, cutoff),
        None => held,
    };
    let fitted = as_measured(
        limited,
        common_seed(plan.timeline@, notes, states, plan.voice.0 - 1, input.resets@),
        coupling(plan, notes, states),
        static_source(input.silent_sources@),
    );
    let named = InstrumentView { name: full_name(plan, patches), ..fitted };
    if shared_filter && plan.shape.view().filter_kind is Some {
        without_filter(named)
    } else {
        named
    }
}

/// Builds the instrument of a track.
pub fn build_instrument(
    plan: &TrackPlan,
    notes: &[SynthNote],
    patches: &[Patch],
    states: &[ProgramFrame],
    model: SidModel,
    clock: SystemClock,
    input: &InstrumentInput,
    shared_filter: bool,
) -> (r: Instrument)
    requires
        plan.voice.valid(),
        timeline_fits(plan.timeline@, notes@),
        segments_fit(plan.segments@, patches@),
        input.resets@.len() == plan.timeline@.len(),
    ensures
        r.view() == track_instrument(
            *plan,
            notes@,
            patches@,
            states@,
            model,
            clock,
            *input,
            shared_filter,
        ),
{
    let mut instrument: Instrument = build_first_instrument(
        plan,
        notes,
        patches,
        states,
        model,
        clock,
        &input.sound,
    );
    if input.measured_envelope {
        enable_measured_envelope(&mut instrument);
    }
    if let Some(cutoff) = plan_output_cutoff(plan, patches) {
        add_output_lowpass(&mut instrument, cutoff);
    }
    let seed: Option<u32> = find_common_seed(plan, notes, states, input.resets.as_slice());
    let evidence: HardwareEvidence = measure_hardware(plan, notes, states);
    let source: Option<u16> = find_static_source(input.silent_sources.as_slice());
    enforce_measured_oscillators(&mut instrument, seed, evidence, source);
    let ghost fitted = instrument.view();
    instrument.name = plan_name(plan, patches);
    assert(instrument.view() =~= (InstrumentView { name: full_name(*plan, patches@), ..fitted }));
    if shared_filter && plan.shape.filter_kind.is_some() {
        strip_filter_copy(&mut instrument);
    }
    instrument
}

/// Instruments as plain values.
pub open spec fn instrument_views(instruments: Seq<Instrument>) -> Seq<InstrumentView> {
    Seq::new(instruments.len(), |i: int| instruments[i].view())
}

/// The instruments of a song: one for each track, or a plain pulse if there is
/// none.
pub open spec fn song_instruments(
    plans: Seq<TrackPlan>,
    notes: Seq<SynthNote>,
    patches: Seq<Patch>,
    states: Seq<ProgramFrame>,
    model: SidModel,
    clock: SystemClock,
    inputs: Seq<InstrumentInput>,
    shared_filter: bool,
) -> Seq<InstrumentView> {
    if plans.len() == 0 {
        seq![generic_pulse(1, VoiceId(1), model, clock)]
    } else {
        Seq::new(
            plans.len(),
            |p: int|
                track_instrument(
                    plans[p],
                    notes,
                    patches,
                    states,
                    model,
                    clock,
                    inputs[p],
                    shared_filter,
                ),
        )
    }
}

/// Builds the instruments of a song.
pub fn build_instruments(
    plans: &[TrackPlan],
    notes: &[SynthNote],
    patches: &[Patch],
    states: &[ProgramFrame],
    model: SidModel,
    clock: SystemClock,
    inputs: &[InstrumentInput],
    shared_filter: bool,
) -> (r: Vec<Instrument>)
    requires
        plans_fit(plans@, notes@),
        inputs@.len() == plans@.len(),
        forall|p: int|
            0 <= p < plans@.len() ==> segments_fit((#[trigger] plans@[p]).segments@, patches@)
                && inputs@[p].resets@.len() == plans@[p].timeline@.len(),
    ensures
        instrument_views(r@) == song_instruments(
            plans@,
            notes@,
            patches@,
            states@,
            model,
            clock,
            inputs@,
            shared_filter,
        ),
{
    let mut out: Vec<Instrument> = Vec::new();
    if plans.len() == 0 {
        let plain: Instrument = generic_pulse_instrument(1, VoiceId(1), model, clock);
        let ghost v = plain.view();
        out.push(plain);
        assert(instrument_views(out@) =~= seq![v]);
        return out;
    }
    let ghost wanted = song_instruments(
        plans@,
        notes@,
        patches@,
        states@,
        model,
        clock,
        inputs@,
        shared_filter,
    );
    let mut p: usize = 0;
    while p < plans.len()
        invariant
            p <= plans@.len(),
            0 < plans@.len(),
            plans_fit(plans@, notes@),
            inputs@.len() == plans@.len(),
            forall|p: int|
                0 <= p < plans@.len() ==> segments_fit((#[trigger] plans@[p]).segments@, patches@)
                    && inputs@[p].resets@.len() == plans@[p].timeline@.len(),
            wanted == song_instruments(
                plans@,
                notes@,
                patches@,
                states@,
                model,
                clock,
                inputs@,
                shared_filter,
            ),
            out@.len() == p,
            forall|q: int| 0 <= q < p ==> (#[trigger] out@[q]).view() == wanted[q],
        decreases plans@.len() - p,
    {
        assert(plans@[p as int].voice.valid());
        out.push(
            build_instrument(
                &plans[p],
                notes,
                patches,
                states,
                model,
                clock,
                &inputs[p],
                shared_filter,
            ),
        );
        p += 1;
    }
    assert(instrument_views(out@) =~= wanted);
    out
}

/// How the chip's filter is set: its cutoff, its resonance and its mode.
#[derive(Debug, Clone, Copy, PartialEq, Eq, Structural)]
pub struct FilterState {
    pub cutoff: u16,
    pub resonance: u8,
    pub mode: FilterMode,
}

/// How the chip's filter is set at a frame.
pub open spec fn filter_state(state: ProgramFrame) -> FilterState {
    FilterState {
        cutoff: state.filter.cutoff,
        resonance: state.filter.resonance,
        mode: state.filter.mode,
    }
}

/// Whether a frame belongs to a note of a plan.
pub open spec fn frame_of_plan(
    plan: TrackPlan,
    notes: Seq<SynthNote>,
    states: Seq<ProgramFrame>,
    t: int,
    f: int,
) -> bool {
    0 <= t < plan.timeline@.len() && sounds_at(
        notes[plan.timeline@[t].1 as int].event,
        states.len(),
        f,
    )
}

/// Whether one filter serves all tracks: at every frame of a note its voice is
/// routed as its track expects, and all routed frames set the filter alike.
pub open spec fn filter_serves(
    plans: Seq<TrackPlan>,
    notes: Seq<SynthNote>,
    states: Seq<ProgramFrame>,
    s: FilterState,
) -> bool {
    forall|p: int, t: int, f: int|
        #![trigger plans[p].timeline@[t], states[f]]
        0 <= p < plans.len() && frame_of_plan(plans[p], notes, states, t, f) ==> (
        states[f].filter.routing@[plans[p].voice.0 - 1] == (plans[p].shape.view().filter_kind
            is Some)) && (states[f].filter.routing@[plans[p].voice.0 - 1] ==> filter_state(
            states[f],
        ) == s)
}

/// Whether some frame of some note is routed through the filter.
pub open spec fn some_routed(
    plans: Seq<TrackPlan>,
    notes: Seq<SynthNote>,
    states: Seq<ProgramFrame>,
) -> bool {
    exists|p: int, t: int, f: int|
        #![trigger plans[p].timeline@[t], states[f]]
        0 <= p < plans.len() && frame_of_plan(plans[p], notes, states, t, f)
            && states[f].filter.routing@[plans[p].voice.0 - 1]
}

/// Finds the one setting of the filter that serves all tracks, if some track
/// uses the filter and its setting never changes.
pub fn shared_filter_spec(plans: &[TrackPlan], notes: &[SynthNote], states: &[ProgramFrame]) -> (r:
    Option<FilterState>)
    requires
        plans_fit(plans@, notes@),
    ensures
        match r {
            Some(s) => filter_serves(plans@, notes@, states@, s) && some_routed(
                plans@,
                notes@,
                states@,
            ),
            None => !some_routed(plans@, notes@, states@) || forall|s: FilterState|
                !filter_serves(plans@, notes@, states@, s),
        },
{
    let mut reference: Option<FilterState> = None;
    let mut p: usize = 0;
    while p < plans.len()
        invariant
            p <= plans@.len(),
            plans_fit(plans@, notes@),
            forall|q: int, t: int, f: int|
                #![trigger plans@[q].timeline@[t], states@[f]]
                0 <= q < p && frame_of_plan(plans@[q], notes@, states@, t, f) ==> (
                states@[f].filter.routing@[plans@[q].voice.0 - 1] == (
                plans@[q].shape.view().filter_kind is Some)) && (
                states@[f].filter.routing@[plans@[q].voice.0 - 1] ==> reference == Some(
                    filter_state(states@[f]),
                )),
            reference is Some ==> some_routed(plans@, notes@, states@),
            reference matches Some(s) ==> forall|other: FilterState| #[trigger]
                filter_serves(plans@, notes@, states@, other) ==> other == s,
        decreases plans@.len() - p,
    {
        assert(plans@[p as int].voice.valid());
        let v: usize = plans[p].voice.to_index();
        let expected: bool = plans[p].shape.filter_kind.is_some();
        let mut t: usize = 0;
        while t < plans[p].timeline.len()
            invariant
                p < plans@.len(),
                t <= plans@[p as int].timeline@.len(),
                plans_fit(plans@, notes@),
                v < 3,
                v == plans@[p as int].voice.0 - 1,
                expected == (plans@[p as int].shape.view().filter_kind is Some),
                forall|q: int, t: int, f: int|
                    #![trigger plans@[q].timeline@[t], states@[f]]
                    0 <= q < p && frame_of_plan(plans@[q], notes@, states@, t, f) ==> (
                    states@[f].filter.routing@[plans@[q].voice.0 - 1] == (
                    plans@[q].shape.view().filter_kind is Some)) && (
                    states@[f].filter.routing@[plans@[q].voice.0 - 1] ==> reference == Some(
                        filter_state(states@[f]),
                    )),
                forall|u: int, f: int|
                    #![trigger plans@[p as int].timeline@[u], states@[f]]
                    0 <= u < t && frame_of_plan(plans@[p as int], notes@, states@, u, f) ==> (
                    states@[f].filter.routing@[v as int] == expected) && (
                    states@[f].filter.routing@[v as int] ==> reference == Some(
                        filter_state(states@[f]),
                    )),
                reference is Some ==> some_routed(plans@, notes@, states@),
                reference matches Some(s) ==> forall|other: FilterState| #[trigger]
                    filter_serves(plans@, notes@, states@, other) ==> other == s,
            decreases plans@[p as int].timeline@.len() - t,
        {
            assert(plans@[p as int].voice.valid());
            assert(plans@[p as int].timeline@[t as int].1 < notes@.len());
            let event: &NoteEvent = &notes[plans[p].timeline[t].1].event;
            let range: (usize, usize) = event.frame_range(states.len());
            let mut f: usize = range.0;
            while f < range.1
                invariant
                    range.0 <= f <= range.1 <= states@.len(),
                    p < plans@.len(),
                    t < plans@[p as int].timeline@.len(),
                    v < 3,
                    v == plans@[p as int].voice.0 - 1,
                    expected == (plans@[p as int].shape.view().filter_kind is Some),
                    *event == notes@[plans@[p as int].timeline@[t as int].1 as int].event,
                    (range.0 as int, range.1 as int) == event.frames_in(states@.len()),
                    forall|q: int, t: int, f: int|
                        #![trigger plans@[q].timeline@[t], states@[f]]
                        0 <= q < p && frame_of_plan(plans@[q], notes@, states@, t, f) ==> (
                        states@[f].filter.routing@[plans@[q].voice.0 - 1] == (
                        plans@[q].shape.view().filter_kind is Some)) && (
                        states@[f].filter.routing@[plans@[q].voice.0 - 1] ==> reference == Some(
                            filter_state(states@[f]),
                        )),
                    forall|u: int, f: int|
                        #![trigger plans@[p as int].timeline@[u], states@[f]]
                        0 <= u < t && frame_of_plan(plans@[p as int], notes@, states@, u, f) ==> (
                        states@[f].filter.routing@[v as int] == expected) && (
                        states@[f].filter.routing@[v as int] ==> reference == Some(
                            filter_state(states@[f]),
                        )),
                    forall|g: int|
                        range.0 <= g < f ==> ((
                        #[trigger] states@[g]).filter.routing@[v as int] == expected) && (
                        states@[g].filter.routing@[v as int] ==> reference == Some(
                            filter_state(states@[g]),
                        )),
                    reference is Some ==> some_routed(plans@, notes@, states@),
                    reference matches Some(s) ==> forall|other: FilterState| #[trigger]
                        filter_serves(plans@, notes@, states@, other) ==> other == s,
                decreases range.1 - f,
            {
                let state: &ProgramFrame = &states[f];
                let ghost entry = plans@[p as int].timeline@[t as int];
                assert(frame_of_plan(plans@[p as int], notes@, states@, t as int, f as int));
                assert(*state == states@[f as int]);
                let routed: bool = state.filter.routing[v];
                if routed != expected {
                    assert forall|s: FilterState| !filter_serves(plans@, notes@, states@, s) by {}
                    return None;
                }
                if routed {
                    let here: FilterState = FilterState {
                        cutoff: state.filter.cutoff,
                        resonance: state.filter.resonance,
                        mode: state.filter.mode,
                    };
                    assert(here == filter_state(states@[f as int]));
                    assert(some_routed(plans@, notes@, states@));
                    assert forall|other: FilterState| #[trigger]
                        filter_serves(plans@, notes@, states@, other) implies other == here by {}
                    if let Some(known) = reference {
                        if known != here {
                            assert forall|s: FilterState|
                                !filter_serves(plans@, notes@, states@, s) by {
                                if filter_serves(plans@, notes@, states@, s) {
                                    assert(s == known);
                                    assert(s == here);
                                }
                            }
                            return None;
                        }
                    }
                    reference = Some(here);
                }
                f += 1;
            }
            t += 1;
        }
        p += 1;
    }
    proof {
        match reference {
            Some(s) => {
                assert(filter_serves(plans@, notes@, states@, s));
            },
            None => {
                assert(!some_routed(plans@, notes@, states@));
            },
        }
    }
    reference
}

/// The pulse-width program that a track's instrument runs itself: that of its
/// shape, if the track is no drum and no loop was observed of its sound, and the
/// notes agree with the program.
pub open spec fn running_pwm(
    plan: TrackPlan,
    patches: Seq<Patch>,
    verdicts: Seq<Option<bool>>,
) -> Option<AuthoredPwm> {
    match track_sound(plan.segments@) {
        Some(sound) => if !plan.drum_drop && observed(
            patches[sound.0 as int].voices@[sound.1 as int],
        ) is None && arpeggiator_agrees(verdicts) {
            plan.shape.view().authored_pwm
        } else {
            None
        },
        None => None,
    }
}

fn all_agree(verdicts: &[Option<bool>]) -> (r: bool)
    ensures
        r == arpeggiator_agrees(verdicts@),
{
    let mut verified: bool = false;
    let mut i: usize = 0;
    while i < verdicts.len()
        invariant
            i <= verdicts@.len(),
            verified ==> verdicts@.contains(Some(true)),
            forall|j: int|
                0 <= j < i ==> #[trigger] verdicts@[j] != Some(false) && (verdicts@[j] == Some(true)
                    ==> verified),
        decreases verdicts@.len() - i,
    {
        if let Some(agrees) = verdicts[i] {
            if !agrees {
                assert(verdicts@[i as int] == Some(false));
                return false;
            }
            assert(verdicts@[i as int] == Some(true));
            verified = true;
        }
        i += 1;
    }
    verified
}

/// Decides whether a track's instrument runs its pulse-width program itself.
/// `verdicts` tells of each note whether it agrees with the program, where that
/// can be told.
pub fn plan_authored_pwm(plan: &TrackPlan, patches: &[Patch], verdicts: &[Option<bool>]) -> (r:
    Option<AuthoredPwm>)
    requires
        segments_fit(plan.segments@, patches@),
    ensures
        r == running_pwm(*plan, patches@, verdicts@),
{
    if plan.drum_drop || plan.segments.len() == 0 {
        return None;
    }
    assert(plan.segments@[0].patch matches Some(p) ==> p < patches@.len());
    if let Some(p) = plan.segments[0].patch {
        if let Some(q) = plan.segments[0].profile {
            if observed_waveform_program(&patches[p].voices[q]).is_some() {
                return None;
            }
            if all_agree(verdicts) {
                return plan.shape.authored_pwm;
            }
        }
    }
    None
}

/// The lowest pulse width of a driver's sweep.
pub const PWM_BOUNCE_LO: u16 = 2048;

/// How far a driver's sweep reaches.
pub const PWM_BOUNCE_SPAN: u16 = 1536;

/// Where in its sweep a pulse width lies.
pub open spec fn sweep_origin(pw_reg: u16) -> nat {
    if pw_reg < PWM_BOUNCE_LO {
        0
    } else if pw_reg > PWM_BOUNCE_LO + PWM_BOUNCE_SPAN {
        PWM_BOUNCE_SPAN as nat
    } else {
        (pw_reg - PWM_BOUNCE_LO) as nat
    }
}

/// The script that sweeps a pulse width as a driver does: a triangle of steps
/// that starts at the base width.
pub open spec fn pwm_script(step: u16, pw_reg: u16, rate: Seq<char>) -> Seq<char> {
    "let steps_per_sec = "@ + rate + "\nlet step_units = "@ + number_text(step as nat)
        + "\nlet band_floor = 2048\nlet band_span = 1536\nlet origin_units = "@ + number_text(
        sweep_origin(pw_reg),
    ) + "\nlet base_pw = "@ + number_text(pw_reg as nat)
        + "\nlet t = floor(age * steps_per_sec)\nlet x = origin_units + step_units * t\nlet tri = band_span - abs((x % (2 * band_span)) - band_span)\nout = band_floor + tri - base_pw"@
}

/// Writes the script that sweeps a pulse width. `rate` is the number of steps in
/// a second.
pub fn authored_pwm_script(step: u16, pw_reg: u16, rate: &str) -> (r: String)
    ensures
        r@ == pwm_script(step, pw_reg, rate@),
{
    let origin: u16 = if pw_reg < PWM_BOUNCE_LO {
        0
    } else if pw_reg > PWM_BOUNCE_LO + PWM_BOUNCE_SPAN {
        PWM_BOUNCE_SPAN
    } else {
        pw_reg - PWM_BOUNCE_LO
    };
    let mut out: Vec<char> = Vec::new();
    push_text(&mut out, "let steps_per_sec = ");
    push_text(&mut out, rate);
    push_text(&mut out, "\nlet step_units = ");
    push_number(&mut out, step as u64);
    push_text(
        &mut out,
        "\nlet band_floor = 2048\nlet band_span = 1536\nlet origin_units = ",
    );
    push_number(&mut out, origin as u64);
    push_text(&mut out, "\nlet base_pw = ");
    push_number(&mut out, pw_reg as u64);
    push_text(
        &mut out,
        "\nlet t = floor(age * steps_per_sec)\nlet x = origin_units + step_units * t\nlet tri = band_span - abs((x % (2 * band_span)) - band_span)\nout = band_floor + tri - base_pw",
    );
    assert(out@ =~= pwm_script(step, pw_reg, rate@));
    from_chars(out.as_slice())
}

} // verus!
