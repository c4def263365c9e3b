//! What the instruments of a song sound like.

use super::{
    has_module, EnvelopeSetting, FilterSpec, ModuleId, ModuleView, NoiseAccent, ParametersView,
    SourceView,
};
use super::select::{raw_trace, sound_instrument, SoundInput};
use super::super::oscillator::OscillatorView;
use super::super::ownership::timeline_fits;
use super::super::tracks::{SynthNote, TrackPlan};
use crate::analysis::frame::ProgramFrame;
use crate::analysis::patch::{Patch, PatchVoiceProfile};
use crate::analysis::program::{SystemClock, VoiceId};
use crate::header::SidModel;
use vstd::prelude::*;

verus! {

/// The selection of waveforms that an oscillator plays, told bit by bit from a control
/// register of the chip: triangle, sawtooth, pulse and noise.
pub open spec fn selects(o: OscillatorView, control: u8) -> bool {
    &&& o.mask & 0x01 != 0 <==> control & 0x10 != 0
    &&& o.mask & 0x02 != 0 <==> control & 0x20 != 0
    &&& o.mask & 0x04 != 0 <==> control & 0x40 != 0
    &&& o.mask & 0x08 != 0 <==> control & 0x80 != 0
    &&& o.mask <= 0x0F
}

/// Whether a graph of modules holds one with the parameters given.
pub open spec fn holds_module(modules: Seq<ModuleView>, id: ModuleId, p: ParametersView) -> bool {
    exists|i: int|
        0 <= i < modules.len() && (#[trigger] modules[i]).id == id && modules[i].parameters == p
}

proof fn upper_bits(control: u8)
    ensures
        ({
            let mask = (control / 16) % 16;
            &&& mask & 0x01 != 0 <==> control & 0x10 != 0
            &&& mask & 0x02 != 0 <==> control & 0x20 != 0
            &&& mask & 0x04 != 0 <==> control & 0x40 != 0
            &&& mask & 0x08 != 0 <==> control & 0x80 != 0
            &&& mask <= 0x0F
            &&& (control / 0x40) % 2 == 1 <==> control & 0x40 != 0
            &&& control / 16 == 0 <==> control & 0xF0 == 0
        }),
{
    let mask = (control / 16) % 16;
    assert(mask == (control / 16) % 16 ==> (mask & 0x01 != 0 <==> control & 0x10 != 0) && (mask & 0x02
        != 0 <==> control & 0x20 != 0) && (mask & 0x04 != 0 <==> control & 0x40 != 0) && (mask & 0x08
        != 0 <==> control & 0x80 != 0) && mask <= 0x0F && ((control / 0x40) % 2 == 1 <==> control
        & 0x40 != 0) && (control / 16 == 0 <==> control & 0xF0 == 0)) by (bit_vector);
}

/// The first oscillator of a sound selects the waveforms that the sound's control byte
/// selects, rings and syncs as the sound does, and follows its note on the chip of the
/// song; the sound keeps its envelope, its filter and its script. Without a sequence that
/// was observed or authored it plays none.
pub proof fn sounds_keep_their_waveforms(
    id: u32,
    voice: VoiceId,
    patch: Patch,
    profile: PatchVoiceProfile,
    program: Option<Seq<u8>>,
    frequencies: Seq<u16>,
    model: SidModel,
    clock: SystemClock,
    input: SoundInput,
)
    ensures
        ({
            let r = sound_instrument(
                id,
                voice,
                patch,
                profile,
                program,
                frequencies,
                model,
                clock,
                input,
            );
            &&& r.id == id
            &&& r.detune == input.detune
            &&& r.modules[0].id == ModuleId::Sid1
            &&& r.modules[0].parameters matches ParametersView::SidOscillator(o) && {
                &&& selects(o, patch.waveform)
                &&& o.ring_mod == profile.ring_mod
                &&& o.hard_sync == profile.hard_sync
                &&& o.track_pitch
                &&& o.noise_seed == 0x007F_FFF8
                &&& o.mos8580 == (model == SidModel::Mos8580)
                &&& o.clock == clock
                &&& profile.waveform_loop is None && program is None ==> o.seq_len == 0
            }
            &&& holds_module(
                r.modules,
                ModuleId::Env1,
                ParametersView::Envelope(EnvelopeSetting::Adsr(patch.adsr)),
            )
            &&& match input.filter {
                Some(f) => holds_module(r.modules, ModuleId::Flt1, ParametersView::Filter(f)),
                None => !has_module(r.modules, ModuleId::Flt1),
            }
            &&& match input.script {
                Some(text) => holds_module(
                    r.modules,
                    ModuleId::Scr1,
                    ParametersView::Script(text@),
                ),
                None => !has_module(r.modules, ModuleId::Scr1),
            }
        }),
{
    upper_bits(patch.waveform);
    let r = sound_instrument(
        id,
        voice,
        patch,
        profile,
        program,
        frequencies,
        model,
        clock,
        input,
    );
    assert(r.modules[0].id == ModuleId::Sid1);
    assert(r.modules[1].id == ModuleId::Env1);
    assert(r.modules[1].parameters == ParametersView::Envelope(EnvelopeSetting::Adsr(patch.adsr)));
    let used = (profile.ring_mod || profile.hard_sync) && input.neighbour is Some;
    let a: int = if used {
        5
    } else {
        4
    };
    if input.filter is Some {
        assert(r.modules[a].id == ModuleId::Flt1);
        assert(r.modules[a].parameters == ParametersView::Filter(input.filter->0));
    }
    if input.script is Some {
        assert(r.modules.last() == r.modules[r.modules.len() - 1]);
        assert(r.modules[r.modules.len() - 1].id == ModuleId::Scr1);
    }
}

/// The pulse width of a sound without a script is the middle of the range that was seen
/// where its waveforms hold the pulse, and half of the cycle where they do not.
pub proof fn pulses_stand_in_the_middle(
    id: u32,
    voice: VoiceId,
    patch: Patch,
    profile: PatchVoiceProfile,
    program: Option<Seq<u8>>,
    frequencies: Seq<u16>,
    model: SidModel,
    clock: SystemClock,
    input: SoundInput,
)
    requires
        input.pulse_range.0 <= input.pulse_range.1 <= 4095,
    ensures
        ({
            let r = sound_instrument(
                id,
                voice,
                patch,
                profile,
                program,
                frequencies,
                model,
                clock,
                input,
            );
            let lo = input.pulse_range.0;
            let hi = input.pulse_range.1;
            r.modules[0].parameters matches ParametersView::SidOscillator(o) && {
                &&& input.script is None && patch.waveform & 0x40 != 0 ==> lo <= o.pw_reg <= hi
                    && o.pw_reg - lo <= hi - o.pw_reg <= o.pw_reg - lo + 1
                &&& input.script is None && patch.waveform & 0x40 == 0 ==> o.pw_reg == 0x800
                &&& input.script is Some && input.pulse_start is Some && input.pulse_start->0
                    <= 4095 ==> o.pw_reg == input.pulse_start->0
            }
        }),
{
    upper_bits(patch.waveform);
}

/// An authored sequence plays once, and an observed loop over and over: the oscillator's
/// steps are the selections of the sequence, sixteen at most, and a step with a frequency
/// of its own keeps it.
pub proof fn sequences_are_played(
    id: u32,
    voice: VoiceId,
    patch: Patch,
    profile: PatchVoiceProfile,
    program: Seq<u8>,
    frequencies: Seq<u16>,
    model: SidModel,
    clock: SystemClock,
    input: SoundInput,
    i: int,
)
    requires
        profile.waveform_loop is None,
        0 <= i < program.len(),
        i < 16,
        frequencies.len() == 16,
    ensures
        ({
            let r = sound_instrument(
                id,
                voice,
                patch,
                profile,
                Some(program),
                frequencies,
                model,
                clock,
                input,
            );
            r.modules[0].parameters matches ParametersView::SidOscillator(o) && {
                &&& o.seq_len <= 16
                &&& program.len() <= 16 ==> o.seq_len == program.len()
                &&& program.len() > 16 ==> o.seq_len == 16
                &&& !o.seq_loop
                &&& o.seq_steps.len() == 16
                &&& program[i] < 16 ==> o.seq_steps[i] == program[i]
                &&& o.seq_freqs[i] == frequencies[i]
                &&& o.seq_freq_mask & (1u16 << (i as u16)) != 0 <==> frequencies[i] != 0
            }
        }),
{
    mask_tells_frequencies(frequencies, 16, i);
}

proof fn mask_tells_frequencies(freqs: Seq<u16>, n: int, i: int)
    requires
        0 <= i < 16,
        0 <= n <= 16,
        freqs.len() == 16,
    ensures
        0 <= super::super::oscillator::frequency_mask(freqs, n) < super::super::oscillator::bit(n),
        super::super::oscillator::bit(n) <= 65536,
        ({
            let mask = super::super::oscillator::frequency_mask(freqs, n) as u16;
            mask & (1u16 << (i as u16)) != 0 <==> i < n && freqs[i] != 0
        }),
    decreases n,
{
    reveal_with_fuel(super::super::oscillator::bit, 18);
    if n <= 0 {
        let b = 1u16 << (i as u16);
        assert(0u16 & b == 0) by (bit_vector);
    } else {
        mask_tells_frequencies(freqs, n - 1, i);
        let before = super::super::oscillator::frequency_mask(freqs, n - 1) as u16;
        let place = (n - 1) as u16;
        let weight = 1u16 << place;
        let at = i as u16;
        powers_shift(place);
        if freqs[n - 1] > 0 {
            let after = super::super::oscillator::frequency_mask(freqs, n) as u16;
            assert(after == before + weight);
            assert(after & (1u16 << at) != 0 <==> (before & (1u16 << at) != 0 || at == place))
                by (bit_vector)
                requires
                    at < 16,
                    place < 16,
                    weight == 1u16 << place,
                    before < weight,
                    after == before + weight,
            ;
        } else if i == n - 1 {
            assert(before & (1u16 << at) == 0) by (bit_vector)
                requires
                    at < 16,
                    before < 1u16 << at,
            ;
        }
    }
}

proof fn powers_shift(n: u16)
    requires
        n < 16,
    ensures
        1u16 << n == super::super::oscillator::bit(n as int),
{
    reveal_with_fuel(super::super::oscillator::bit, 18);
    assert(n == 0 ==> 1u16 << n == 1) by (bit_vector);
    assert(n == 1 ==> 1u16 << n == 2) by (bit_vector);
    assert(n == 2 ==> 1u16 << n == 4) by (bit_vector);
    assert(n == 3 ==> 1u16 << n == 8) by (bit_vector);
    assert(n == 4 ==> 1u16 << n == 16 && n != 5) by (bit_vector);
    assert((n == 5 ==> 1u16 << n == 32) && (n == 6 ==> 1u16 << n == 64) && (n == 7 ==> 1u16 << n
        == 128) && (n == 8 ==> 1u16 << n == 256) && (n == 9 ==> 1u16 << n == 512) && (n == 10
        ==> 1u16 << n == 1024) && (n == 11 ==> 1u16 << n == 2048) && (n == 12 ==> 1u16 << n == 4096)
        && (n == 13 ==> 1u16 << n == 8192) && (n == 14 ==> 1u16 << n == 16384) && (n == 15 ==> 1u16
        << n == 32768)) by (bit_vector);
}

/// A track without a sound plays what the chip played when its first note began: its
/// waveforms, its pulse width and its envelope, through the filter just where the voice
/// was routed through it.
pub proof fn traces_sound_as_the_chip_did(
    plan: TrackPlan,
    notes: Seq<SynthNote>,
    states: Seq<ProgramFrame>,
    model: SidModel,
    clock: SystemClock,
    filter: FilterSpec,
)
    requires
        plan.voice.valid(),
        timeline_fits(plan.timeline@, notes),
        plan.timeline@.len() > 0,
        notes[plan.timeline@[0].1 as int].event.start_frame < states.len(),
    ensures
        ({
            let f = notes[plan.timeline@[0].1 as int].event.start_frame as int;
            let played = states[f].voices@[plan.voice.0 - 1];
            let r = raw_trace(plan, notes, states, model, clock, Some(filter));
            &&& r.id == plan.instrument_id
            &&& r.modules[0].id == ModuleId::Sid1
            &&& r.modules[0].parameters matches ParametersView::SidOscillator(o) && {
                &&& played.waveform & 0xF0 != 0 ==> selects(o, played.waveform)
                &&& played.waveform & 0xF0 != 0 && played.pulse_width <= 4095 ==> o.pw_reg
                    == played.pulse_width
                &&& played.waveform & 0xF0 == 0 ==> selects(o, 0x40) && o.pw_reg == 0x800
                &&& o.seq_len == 0
            }
            &&& played.waveform & 0xF0 != 0 ==> {
                &&& holds_module(
                    r.modules,
                    ModuleId::Env1,
                    ParametersView::Envelope(EnvelopeSetting::Adsr(played.adsr)),
                )
                &&& states[f].filter.routing@[plan.voice.0 - 1] ==> holds_module(
                    r.modules,
                    ModuleId::Flt1,
                    ParametersView::Filter(filter),
                )
                &&& !states[f].filter.routing@[plan.voice.0 - 1] ==> !has_module(
                    r.modules,
                    ModuleId::Flt1,
                )
            }
        }),
{
    let f = notes[plan.timeline@[0].1 as int].event.start_frame as int;
    let v = plan.voice.0 - 1;
    let played = states[f].voices@[v];
    upper_bits(played.waveform);
    upper_bits(0x40);
    let r = raw_trace(plan, notes, states, model, clock, Some(filter));
    assert(r.modules[0].id == ModuleId::Sid1);
    assert(r.modules[1].id == ModuleId::Env1);
    if played.waveform & 0xF0 != 0 && states[f].filter.routing@[v] {
        assert(r.modules[4].id == ModuleId::Flt1 || r.modules[5].id == ModuleId::Flt1);
    }
}

/// A drum has a pulse for its body, with the envelope given, and noise for its click, at
/// the frequency that was measured where one was.
pub proof fn drums_have_a_body_and_a_click(
    body: EnvelopeSetting,
    noise: Option<NoiseAccent>,
    model: SidModel,
    clock: SystemClock,
)
    ensures
        ({
            let m = super::percussion_modules(body, noise, model, clock);
            &&& m[0].id == ModuleId::Sid1
            &&& m[0].parameters matches ParametersView::SidOscillator(o) && selects(o, 0x40)
                && o.track_pitch && o.pw_reg == 0x800 && o.clock == clock
            &&& m[3].id == ModuleId::Sid2
            &&& m[3].parameters matches ParametersView::SidOscillator(o) && selects(o, 0x80)
                && o.clock == clock && match noise {
                Some(a) => o.freq_reg == a.freq_reg && !o.track_pitch,
                None => o.track_pitch,
            }
            &&& holds_module(m, ModuleId::Env1, ParametersView::Envelope(body))
            &&& holds_module(
                m,
                ModuleId::Env2,
                ParametersView::Envelope(
                    EnvelopeSetting::Click(
                        match noise {
                            Some(a) => Some(a.decay),
                            None => None,
                        },
                    ),
                ),
            )
        }),
{
    upper_bits(0x40);
    upper_bits(0x80);
    let m = super::percussion_modules(body, noise, model, clock);
    assert(m[1].id == ModuleId::Env1);
    assert(m[4].id == ModuleId::Env2);
}

/// A source with a neighbour that rings or syncs it has a second oscillator at that
/// neighbour's frequency, wired to ring and to sync just as the source does.
pub proof fn coupled_sources_are_wired(
    s: SourceView,
    envelope: EnvelopeSetting,
    filter: Option<FilterSpec>,
    neighbour: u16,
    script: Option<Seq<char>>,
)
    ensures
        ({
            let m = super::built_modules(s, envelope, filter, Some(neighbour), script);
            let c = super::built_connections(s, filter, Some(neighbour), script is Some);
            &&& s.ring_mod || s.hard_sync ==> m.len() > 4 && m[4].id == ModuleId::Sid2 && (
            m[4].parameters matches ParametersView::SidOscillator(o) && o.freq_reg == neighbour
                && !o.track_pitch)
            &&& !s.ring_mod && !s.hard_sync ==> !has_module(m, ModuleId::Sid2)
            &&& s.ring_mod <==> exists|k: int|
                0 <= k < c.len() && (#[trigger] c[k]).from == ModuleId::Sid2 && c[k].to
                    == ModuleId::Sid1 && c[k].to_port == super::Port::Ring
            &&& s.hard_sync <==> exists|k: int|
                0 <= k < c.len() && (#[trigger] c[k]).from == ModuleId::Sid2 && c[k].to
                    == ModuleId::Sid1 && c[k].to_port == super::Port::Sync
            &&& script is Some <==> exists|k: int|
                0 <= k < c.len() && (#[trigger] c[k]).from == ModuleId::Scr1 && c[k].to
                    == ModuleId::Sid1 && c[k].to_port == super::Port::Pwm
        }),
{
    let m = super::built_modules(s, envelope, filter, Some(neighbour), script);
    let c = super::built_connections(s, filter, Some(neighbour), script is Some);
    let p = super::source_path(filter).len() as int;
    if s.ring_mod {
        assert(c[p + 2].to_port == super::Port::Ring);
        if s.hard_sync {
            assert(c[p + 3].to_port == super::Port::Sync);
        }
    } else if s.hard_sync {
        assert(c[p + 2].to_port == super::Port::Sync);
    }
    if script is Some {
        assert(c[c.len() - 1].to_port == super::Port::Pwm);
    }
}

/// A source reaches its amplifier through its filter, and around it as well where the
/// filter leaks; without a filter it reaches the amplifier at once.
pub proof fn filters_stand_in_the_path(
    s: SourceView,
    filter: Option<FilterSpec>,
    neighbour: Option<u16>,
    scripted: bool,
)
    ensures
        ({
            let c = super::built_connections(s, filter, neighbour, scripted);
            &&& c[0].from == ModuleId::Sid1 && c[0].from_port == super::Port::Out
            &&& filter is None <==> c[0].to == ModuleId::Amp1
            &&& filter is Some <==> c[0].to == ModuleId::Flt1
            &&& (filter is Some && 0 < filter->0.leak <= 0x7F80_0000) <==> exists|k: int|
                0 <= k < c.len() && (#[trigger] c[k]).from == ModuleId::Sid1 && c[k].to
                    == ModuleId::Mix1
        }),
{
    let c = super::built_connections(s, filter, neighbour, scripted);
    if filter is Some && 0 < filter->0.leak <= 0x7F80_0000 {
        assert(c[2].to == ModuleId::Mix1);
    }
}

} // verus!
