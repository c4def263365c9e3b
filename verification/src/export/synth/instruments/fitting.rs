//! What fitting an instrument to its track changes of it, and what it leaves.

use super::refine::{
    agrees, as_measured, common_seed, other_connections, other_modules, output_connection_is,
    rings_somewhere, source_voice, static_source, syncs_somewhere, with_held_envelopes,
    with_output_lowpass, without_filter, HardwareEvidence,
};
use super::select::{
    cents_key, coupling, output_cutoff, running_pwm, sweep_origin, timeline_cents, track_detune,
    track_instrument, track_sound, trim_of, voice_count, InstrumentInput,
};
use super::sound::{selects, sounds_keep_their_waveforms};
use super::{
    has_module, Connection, EnvelopeSetting, InstrumentView, ModuleId, ModuleView, ParametersView,
    Port,
};
use super::super::oscillator::{median, noise_frequencies, number_key};
use super::super::sorting::{same_items, sorted_by, sorting_keeps};
use super::super::timbre::{observed, optional_view, tuned_percussion, InstrumentRole};
use super::super::tracks::{SynthNote, TrackPlan};
use crate::analysis::frame::ProgramFrame;
use crate::analysis::patch::Patch;
use crate::analysis::program::{SystemClock, VoiceId};
use crate::header::SidModel;
use vstd::prelude::*;

verus! {

/// What was measured of a track changes only how its oscillators start and what couples
/// them: the first takes the known state of the noise and loses just the coupling that is
/// known to have had no effect; the second plays at the frequency of the silent voice.
pub proof fn measuring_drops_dead_coupling(
    i: InstrumentView,
    seed: Option<u32>,
    evidence: HardwareEvidence,
    source: Option<u16>,
    k: int,
)
    requires
        0 <= k < i.modules.len(),
    ensures
        ({
            let r = as_measured(i, seed, evidence, source);
            &&& r.modules.len() == i.modules.len()
            &&& r.connections == i.connections
            &&& r.modules[k].id == i.modules[k].id
            &&& match (i.modules[k].parameters, r.modules[k].parameters) {
                (ParametersView::SidOscillator(o), ParametersView::SidOscillator(p)) => {
                    &&& p.mask == o.mask && p.pw_reg == o.pw_reg && p.mos8580 == o.mos8580
                        && p.clock == o.clock
                    &&& p.seq_len == o.seq_len && p.seq_steps == o.seq_steps && p.seq_freqs
                        == o.seq_freqs && p.seq_loop == o.seq_loop && p.seq_freq_mask
                        == o.seq_freq_mask
                    &&& i.modules[k].id == ModuleId::Sid1 ==> {
                        &&& p.freq_reg == o.freq_reg && p.track_pitch == o.track_pitch
                        &&& seed is Some ==> p.noise_seed == seed->0
                        &&& seed is None ==> p.noise_seed == o.noise_seed
                        &&& evidence.exact && !evidence.sync_active ==> !p.hard_sync
                        &&& !evidence.exact || evidence.sync_active ==> p.hard_sync == o.hard_sync
                        &&& evidence.exact && !evidence.ring_active ==> !p.ring_mod
                        &&& !evidence.exact || evidence.ring_active ==> p.ring_mod == o.ring_mod
                    }
                    &&& i.modules[k].id == ModuleId::Sid2 ==> {
                        &&& p.noise_seed == o.noise_seed
                        &&& evidence.exact && source is Some ==> p.freq_reg == source->0
                            && !p.track_pitch
                        &&& !evidence.exact || source is None ==> p == o
                    }
                },
                (before, after) => after == before,
            }
        }),
{
}

/// An instrument that leaves its level to automation holds every envelope open and does
/// not listen to velocity; nothing else of it changes.
pub proof fn held_instruments_hold_every_envelope(i: InstrumentView, k: int)
    requires
        0 <= k < i.modules.len(),
    ensures
        ({
            let r = with_held_envelopes(i);
            &&& !r.velocity_sensitive
            &&& r.modules.len() == i.modules.len()
            &&& r.connections == i.connections
            &&& r.name == i.name && r.id == i.id && r.detune == i.detune
            &&& r.modules[k].id == i.modules[k].id
            &&& i.modules[k].parameters is Envelope ==> r.modules[k].parameters
                == ParametersView::Envelope(EnvelopeSetting::Held)
            &&& !(i.modules[k].parameters is Envelope) ==> r.modules[k] == i.modules[k]
        }),
{
}

/// A low-pass before the output takes the place of the output: what reached that first now
/// reaches the low-pass, and the low-pass reaches the output.
pub proof fn lowpasses_stand_before_the_output(i: InstrumentView, cutoff: u32, k: int)
    requires
        0 <= k < i.connections.len(),
        i.connections[k].to == ModuleId::Out1,
        i.connections[k].to_port == Port::In,
        forall|j: int|
            0 <= j < i.connections.len() && j != k ==> (#[trigger] i.connections[j]).to
                != ModuleId::Out1,
    ensures
        ({
            let r = with_output_lowpass(i, cutoff);
            let last = r.connections.len() - 1;
            &&& r.modules.len() == i.modules.len() + 1
            &&& forall|m: int|
                0 <= m < i.modules.len() ==> #[trigger] r.modules[m] == i.modules[m]
            &&& r.modules[i.modules.len() as int].id == ModuleId::Flt2
            &&& r.modules[i.modules.len() as int].parameters == ParametersView::OutputFilter(cutoff)
            &&& r.connections.len() == i.connections.len() + 1
            &&& r.connections[k].from == i.connections[k].from && r.connections[k].from_port
                == i.connections[k].from_port
            &&& r.connections[k].to == ModuleId::Flt2 && r.connections[k].to_port == Port::In
            &&& r.connections[last].from == ModuleId::Flt2 && r.connections[last].from_port
                == Port::Out
            &&& r.connections[last].to == ModuleId::Out1 && r.connections[last].to_port == Port::In
            &&& forall|j: int|
                0 <= j < i.connections.len() && j != k ==> #[trigger] r.connections[j]
                    == i.connections[j]
        }),
{
    output_connection_is(i.connections, 0);
}

proof fn other_modules_are(modules: Seq<ModuleView>)
    ensures
        forall|k: int|
            0 <= k < other_modules(modules).len() ==> (#[trigger] other_modules(modules)[k]).id
                != ModuleId::Flt1 && other_modules(modules)[k].id != ModuleId::Mix1
                && modules.contains(other_modules(modules)[k]),
        forall|k: int|
            0 <= k < modules.len() && (#[trigger] modules[k]).id != ModuleId::Flt1 && modules[k].id
                != ModuleId::Mix1 ==> other_modules(modules).contains(modules[k]),
        modules.len() > 0 && modules[0].id != ModuleId::Flt1 && modules[0].id != ModuleId::Mix1
            ==> other_modules(modules).len() > 0 && other_modules(modules)[0] == modules[0],
    decreases modules.len(),
{
    if modules.len() > 0 {
        let t = modules.drop_last();
        other_modules_are(t);
        let r = other_modules(modules);
        let before = other_modules(t);
        assert(modules.last() == modules[modules.len() - 1]);
        assert forall|k: int| 0 <= k < r.len() implies (#[trigger] r[k]).id != ModuleId::Flt1
            && r[k].id != ModuleId::Mix1 && modules.contains(r[k]) by {
            if k < before.len() {
                assert(t.contains(before[k]));
                let j = choose|j: int| 0 <= j < t.len() && t[j] == before[k];
                assert(modules[j] == r[k]);
            }
        }
        assert forall|k: int|
            0 <= k < modules.len() && (#[trigger] modules[k]).id != ModuleId::Flt1 && modules[k].id
                != ModuleId::Mix1 implies r.contains(modules[k]) by {
            if k < t.len() {
                assert(t[k] == modules[k]);
                let j = choose|j: int| 0 <= j < before.len() && before[j] == t[k];
                assert(r[j] == modules[k]);
            } else {
                assert(r[r.len() - 1] == modules[k]);
            }
        }
        if t.len() > 0 {
            assert(t[0] == modules[0]);
        }
    }
}

/// An instrument that loses its filter loses nothing else of its modules, and its source
/// reaches the amplifier at once.
pub proof fn filters_are_taken_out_whole(i: InstrumentView)
    requires
        has_module(i.modules, ModuleId::Flt1),
    ensures
        ({
            let r = without_filter(i);
            &&& !has_module(r.modules, ModuleId::Flt1)
            &&& !has_module(r.modules, ModuleId::Mix1)
            &&& forall|k: int|
                0 <= k < i.modules.len() && (#[trigger] i.modules[k]).id != ModuleId::Flt1
                    && i.modules[k].id != ModuleId::Mix1 ==> r.modules.contains(i.modules[k])
            &&& forall|k: int|
                0 <= k < r.modules.len() ==> i.modules.contains(#[trigger] r.modules[k])
            &&& r.connections.contains(
                Connection {
                    from: ModuleId::Sid1,
                    from_port: Port::Out,
                    to: ModuleId::Amp1,
                    to_port: Port::In,
                },
            )
        }),
{
    other_modules_are(i.modules);
    let r = without_filter(i);
    let direct = Connection {
        from: ModuleId::Sid1,
        from_port: Port::Out,
        to: ModuleId::Amp1,
        to_port: Port::In,
    };
    if !other_connections(i.connections).contains(direct) {
        assert(r.connections[r.connections.len() - 1] == direct);
    }
}

/// The notes of a track share a start of the noise just where each of them began with its
/// oscillator reset, its noise undisturbed and that state in its register.
pub proof fn seeds_are_shared_by_all_notes(
    timeline: Seq<(usize, usize)>,
    notes: Seq<SynthNote>,
    states: Seq<ProgramFrame>,
    v: int,
    resets: Seq<bool>,
    seed: u32,
)
    requires
        0 <= v < 3,
        timeline.len() > 0,
        resets.len() == timeline.len(),
    ensures
        common_seed(timeline, notes, states, v, resets) == Some(seed) <==> forall|k: int|
            0 <= k < timeline.len() ==> {
                let f = notes[(#[trigger] timeline[k]).1 as int].event.start_frame as int;
                &&& resets[k]
                &&& f < states.len()
                &&& !states[f].digital_voices@[v].noise_state_poisoned
                &&& states[f].digital_voices@[v].noise_shift_register == seed
            },
{
    let t = timeline[0];
    if common_seed(timeline, notes, states, v, resets) == Some(seed) {
        assert forall|k: int| 0 <= k < timeline.len() implies ({
            let f = notes[(#[trigger] timeline[k]).1 as int].event.start_frame as int;
            &&& resets[k]
            &&& f < states.len()
            &&& !states[f].digital_voices@[v].noise_state_poisoned
            &&& states[f].digital_voices@[v].noise_shift_register == seed
        }) by {}
    }
}

/// Each voice is rung and synced by the one before it, and the first by the third. A voice
/// is synced where that one's oscillator overflows and it is reset itself, and rung where
/// it plays a triangle then.
pub proof fn voices_are_coupled_in_a_ring(
    timeline: Seq<(usize, usize)>,
    notes: Seq<SynthNote>,
    states: Seq<ProgramFrame>,
    v: int,
    k: int,
    f: int,
)
    requires
        0 <= v < 3,
        0 <= k < timeline.len(),
        ({
            let event = notes[timeline[k].1 as int].event;
            &&& event.start_frame <= f < states.len()
            &&& event.end_frame is Some && event.sound_end is None
            &&& f <= event.end_frame->0
        }),
    ensures
        source_voice(0) == 2,
        source_voice(1) == 0,
        source_voice(2) == 1,
        ({
            let by: int = if v == 0 {
                2
            } else {
                v - 1
            };
            &&& states[f].digital_voices@[by].source_msb_edges > 0
                && states[f].digital_voices@[v].sync_resets > 0 ==> syncs_somewhere(
                timeline,
                notes,
                states,
                v,
            )
            &&& states[f].digital_voices@[by].source_msb_edges > 0 && states[f].voices@[v].waveform
                & 0x10 != 0 ==> rings_somewhere(timeline, notes, states, v)
        }),
{
    let event = notes[timeline[k].1 as int].event;
    super::super::timbre::control_bits_select_waveforms(states[f].voices@[v].waveform);
    assert(super::refine::is_followed(event, states, f));
    assert(timeline[k] == timeline[k] && states[f] == states[f]);
}

/// A coupling that no frame shows is not found.
pub proof fn coupling_needs_a_cause(
    timeline: Seq<(usize, usize)>,
    notes: Seq<SynthNote>,
    states: Seq<ProgramFrame>,
    v: int,
)
    requires
        0 <= v < 3,
    ensures
        (forall|f: int|
            0 <= f < states.len() ==> (#[trigger] states[f]).digital_voices@[v].sync_resets == 0)
            ==> !syncs_somewhere(timeline, notes, states, v),
        (forall|f: int|
            0 <= f < states.len() ==> (#[trigger] states[f]).voices@[v].waveform & 0x10 == 0)
            ==> !rings_somewhere(timeline, notes, states, v),
        (forall|f: int|
            0 <= f < states.len() ==> (#[trigger] states[f]).digital_voices@[if v == 0 {
                2
            } else {
                v - 1
            }].source_msb_edges == 0) ==> !syncs_somewhere(timeline, notes, states, v)
            && !rings_somewhere(timeline, notes, states, v),
{
    if rings_somewhere(timeline, notes, states, v) {
        let (k, f) = choose|k: int, f: int|
            #![trigger timeline[k], states[f]]
            0 <= k < timeline.len() && super::refine::is_followed(
                notes[timeline[k].1 as int].event,
                states,
                f,
            ) && super::refine::rings_at(states[f], v);
        super::super::timbre::control_bits_select_waveforms(states[f].voices@[v].waveform);
    }
}

/// The frequency of a silent voice is found just where one note at least has one and no two
/// notes differ in it.
pub proof fn silent_voices_agree(silent: Seq<Option<u16>>, f: u16)
    ensures
        static_source(silent) == Some(f) <==> (exists|k: int|
            0 <= k < silent.len() && #[trigger] silent[k] == Some(f)) && forall|k: int|
            0 <= k < silent.len() && (#[trigger] silent[k]) is Some ==> silent[k] == Some(f),
{
    if static_source(silent) == Some(f) {
        let g = choose|g: u16| agrees(silent, g);
        assert(agrees(silent, g));
        let k = choose|k: int| 0 <= k < silent.len() && silent[k] == Some(f);
        assert(silent[k] == Some(f));
    }
    if (exists|k: int| 0 <= k < silent.len() && #[trigger] silent[k] == Some(f)) && forall|k: int|
        0 <= k < silent.len() && (#[trigger] silent[k]) is Some ==> silent[k] == Some(f) {
        assert(agrees(silent, f));
        let g = choose|g: u16| agrees(silent, g);
        assert(agrees(silent, g));
        let k = choose|k: int| 0 <= k < silent.len() && silent[k] == Some(g);
        assert(silent[k] is Some);
    }
}

/// Whether a list holds the same numbers as another, in ascending order.
pub open spec fn is_sorted_of(s: Seq<u16>, of: Seq<u16>) -> bool {
    &&& s.to_multiset() == of.to_multiset()
    &&& forall|i: int, j: int| 0 <= i <= j < s.len() ==> #[trigger] s[i] <= #[trigger] s[j]
}

/// Whether a list holds the same detunings as another, in ascending order.
pub open spec fn is_ordered_of(s: Seq<i32>, of: Seq<i32>) -> bool {
    &&& s.to_multiset() == of.to_multiset()
    &&& forall|i: int, j: int| 0 <= i <= j < s.len() ==> #[trigger] s[i] <= #[trigger] s[j]
}

/// The median of numbers stands in the middle of them when they are put in order; there is
/// none of no numbers.
pub proof fn medians_stand_in_the_middle(values: Seq<u16>)
    ensures
        values.len() == 0 ==> median(values) is None,
        values.len() > 0 ==> exists|s: Seq<u16>| #[trigger]
            is_sorted_of(s, values) && s.len() == values.len() && median(values)
                == Some(s[values.len() as int / 2]),
{
    if values.len() > 0 {
        sorting_keeps(values, number_key());
        let s = sorted_by(values, number_key());
        assert forall|i: int, j: int| 0 <= i <= j < s.len() implies #[trigger] s[i]
            <= #[trigger] s[j] by {
            assert(number_key()(s[i]) <= number_key()(s[j]));
        }
        assert(is_sorted_of(s, values));
    }
}

/// A track is detuned by the median of its notes, of two middle ones by their mean, and
/// never by more than a hundred cents.
pub proof fn tracks_are_detuned_by_the_median(timeline: Seq<(usize, usize)>, notes: Seq<SynthNote>)
    ensures
        -200_000 <= track_detune(timeline, notes) <= 200_000,
        timeline.len() == 0 ==> track_detune(timeline, notes) == 0,
        (forall|k: int|
            0 <= k < timeline.len() ==> -100_000 <= notes[(
            #[trigger] timeline[k]).1 as int].event.millicents <= 100_000) && timeline.len() > 0
            ==> exists|s: Seq<i32>| #[trigger]
            is_ordered_of(s, timeline_cents(timeline, notes)) && s.len()
                == timeline.len() && track_detune(timeline, notes) == s[(s.len() - 1) / 2]
                + s[s.len() as int / 2],
{
    let cents = timeline_cents(timeline, notes);
    let s = sorted_by(cents, cents_key());
    sorting_keeps(cents, cents_key());
    if (forall|k: int|
        0 <= k < timeline.len() ==> -100_000 <= notes[(
        #[trigger] timeline[k]).1 as int].event.millicents <= 100_000) && timeline.len() > 0 {
        assert forall|i: int, j: int| 0 <= i <= j < s.len() implies #[trigger] s[i]
            <= #[trigger] s[j] by {
            assert(cents_key()(s[i]) <= cents_key()(s[j]));
        }
        assert(is_ordered_of(s, cents));
        same_items(s, cents);
        assert forall|i: int| 0 <= i < s.len() implies -100_000 <= #[trigger] s[i] <= 100_000 by {
            assert(s.contains(s[i]));
            let k = choose|k: int| 0 <= k < cents.len() && cents[k] == s[i];
            assert(notes[timeline[k].1 as int].event.millicents == cents[k]);
        }
    }
}

/// The frequency of a step of noise is the median of what the voice played at that step of
/// its notes; other steps have none of their own.
pub proof fn only_noise_steps_have_frequencies(
    program: Seq<u8>,
    timeline: Seq<(usize, usize)>,
    notes: Seq<SynthNote>,
    states: Seq<ProgramFrame>,
    v: int,
    step: int,
)
    requires
        0 <= step < 16,
    ensures
        ({
            let r = noise_frequencies(Some(program), timeline, notes, states, v);
            &&& r.len() == 16
            &&& step >= program.len() ==> r[step] == 0
            &&& step < program.len() && program[step] & 0x08 == 0 ==> r[step] == 0
            &&& (forall|k: int|
                0 <= k < timeline.len() ==> {
                    let f = notes[(#[trigger] timeline[k]).1 as int].event.start_frame + step;
                    f < states.len() ==> states[f].voices@[v].freq == 0
                }) ==> r[step] == 0
        }),
{
    if step < program.len() {
        let x = program[step];
        assert(x & 0x08 == 0 <==> (x / 8) % 2 == 0) by (bit_vector);
    }
    if forall|k: int|
        0 <= k < timeline.len() ==> {
            let f = notes[(#[trigger] timeline[k]).1 as int].event.start_frame + step;
            f < states.len() ==> states[f].voices@[v].freq == 0
        } {
        no_samples(timeline, notes, states, v, step, timeline.len() as int);
    }
}

proof fn no_samples(
    timeline: Seq<(usize, usize)>,
    notes: Seq<SynthNote>,
    states: Seq<ProgramFrame>,
    v: int,
    step: int,
    k: int,
)
    requires
        0 <= k <= timeline.len(),
        forall|j: int|
            0 <= j < timeline.len() ==> {
                let f = notes[(#[trigger] timeline[j]).1 as int].event.start_frame + step;
                f < states.len() ==> states[f].voices@[v].freq == 0
            },
    ensures
        super::super::oscillator::step_samples(timeline, notes, states, v, step, k).len() == 0,
    decreases k,
{
    if k > 0 {
        no_samples(timeline, notes, states, v, step, k - 1);
        assert(notes[timeline[k - 1].1 as int].event.start_frame + step < states.len()
            ==> states[notes[timeline[k - 1].1 as int].event.start_frame + step].voices@[v].freq
            == 0);
    }
}

/// As many voices share the mix as carry a track, one at least.
pub proof fn voices_that_carry_tracks_are_counted(plans: Seq<TrackPlan>)
    ensures
        1 <= voice_count(plans) <= 3,
        ({
            let one = exists|p: int| 0 <= p < plans.len() && (#[trigger] plans[p]).voice.0 == 1;
            let two = exists|p: int| 0 <= p < plans.len() && (#[trigger] plans[p]).voice.0 == 2;
            let three = exists|p: int| 0 <= p < plans.len() && (#[trigger] plans[p]).voice.0 == 3;
            &&& voice_count(plans) == 3 <==> one && two && three
            &&& voice_count(plans) == 2 <==> (one && two && !three) || (one && !two && three) || (
            !one && two && three)
        }),
{
    assert(forall|a: VoiceId, b: VoiceId| #[trigger] a.0 == #[trigger] b.0 ==> a == b);
    assert forall|v: u8| 1 <= v <= 3 implies (#[trigger] super::select::carries(plans, VoiceId(v))
        <==> exists|p: int| 0 <= p < plans.len() && (#[trigger] plans[p]).voice.0 == v) by {
        if exists|p: int| 0 <= p < plans.len() && (#[trigger] plans[p]).voice.0 == v {
            let p = choose|p: int| 0 <= p < plans.len() && (#[trigger] plans[p]).voice.0 == v;
            assert(plans[p].voice == VoiceId(v));
        }
    }
}

/// Drum drops are mixed the quietest of all, arpeggios quieter than other leads, drums
/// quieter than what has no such role, and nothing is mixed louder than it is. Of these
/// only what is harsh gets a low-pass, the lower the harsher.
pub proof fn mixes_rank_their_roles(plan: TrackPlan, patches: Seq<Patch>)
    ensures
        ({
            let trim = trim_of(plan, patches);
            let role = super::super::naming::role_of(plan.segments@, patches);
            let arpeggio = super::super::emission::track_arpeggio(plan.segments@, patches) is Some;
            let cutoff = output_cutoff(plan, patches);
            &&& 350 <= trim.role <= 1000
            &&& plan.drum_drop <==> trim.role == 350
            &&& !plan.drum_drop ==> {
                &&& role == InstrumentRole::Lead && arpeggio <==> trim.role == 450
                &&& role == InstrumentRole::Lead && !arpeggio <==> trim.role == 700
                &&& role is Drum <==> trim.role == 750
            }
            &&& plan.drum_drop ==> cutoff == Some(2000u32)
            &&& cutoff is Some && !plan.drum_drop ==> (role == InstrumentRole::Lead && arpeggio
                && cutoff == Some(4000u32)) || (role is Drum && plan.timeline@.len() >= 32 && cutoff
                == Some(1800u32))
            &&& !plan.drum_drop && role == InstrumentRole::Lead && arpeggio ==> cutoff is Some
            &&& !plan.drum_drop && role is Drum && plan.timeline@.len() >= 32 ==> cutoff is Some
        }),
{
}

/// A track runs its pulse-width program itself only where some note was seen to agree with
/// it and none to disagree, where it is no drum, and where no loop was observed.
pub proof fn running_programs_agree_with_their_notes(
    plan: TrackPlan,
    patches: Seq<Patch>,
    verdicts: Seq<Option<bool>>,
)
    ensures
        running_pwm(plan, patches, verdicts) is Some ==> {
            &&& running_pwm(plan, patches, verdicts) == plan.shape.authored_pwm
            &&& !plan.drum_drop
            &&& exists|k: int| 0 <= k < verdicts.len() && #[trigger] verdicts[k] == Some(true)
            &&& forall|k: int| 0 <= k < verdicts.len() ==> #[trigger] verdicts[k] != Some(false)
        },
        !plan.drum_drop && track_sound(plan.segments@) is Some && observed(
            patches[(track_sound(plan.segments@)->0).0 as int].voices@[(track_sound(
                plan.segments@,
            )->0).1 as int],
        ) is None && (exists|k: int|
            0 <= k < verdicts.len() && #[trigger] verdicts[k] == Some(true)) && (forall|k: int|
            0 <= k < verdicts.len() ==> #[trigger] verdicts[k] != Some(false)) ==> running_pwm(
            plan,
            patches,
            verdicts,
        ) == plan.shape.authored_pwm,
{
    if running_pwm(plan, patches, verdicts) is Some {
        let k = choose|k: int| 0 <= k < verdicts.len() && verdicts[k] == Some(true);
        assert(verdicts[k] == Some(true));
    }
}

/// A sweep starts as far above its floor as the pulse width stands, within the sweep.
pub proof fn sweeps_start_at_the_pulse_width(pw_reg: u16)
    ensures
        sweep_origin(pw_reg) <= 1536,
        2048 <= pw_reg <= 3584 ==> 2048 + sweep_origin(pw_reg) == pw_reg,
        pw_reg < 2048 ==> sweep_origin(pw_reg) == 0,
        pw_reg > 3584 ==> sweep_origin(pw_reg) == 1536,
{
}

/// The instrument of a track with a sound keeps the waveforms of that sound, whatever else
/// was measured of the track, unless the track is a drum.
pub proof fn tracks_keep_the_waveforms_of_their_sound(
    plan: TrackPlan,
    notes: Seq<SynthNote>,
    patches: Seq<Patch>,
    states: Seq<ProgramFrame>,
    model: SidModel,
    clock: SystemClock,
    input: InstrumentInput,
    shared_filter: bool,
)
    requires
        !plan.drum_drop,
        plan.segments@.len() > 0,
        plan.segments@[0].patch is Some,
        plan.segments@[0].profile is Some,
        patches[plan.segments@[0].patch->0 as int].role_tags.drum_subclass is None,
    ensures
        ({
            let patch = patches[plan.segments@[0].patch->0 as int];
            let r = track_instrument(
                plan,
                notes,
                patches,
                states,
                model,
                clock,
                input,
                shared_filter,
            );
            &&& r.id == plan.instrument_id
            &&& r.detune == input.sound.detune
            &&& r.velocity_sensitive == !input.measured_envelope
            &&& r.modules.len() > 0
            &&& r.modules[0].id == ModuleId::Sid1
            &&& r.modules[0].parameters matches ParametersView::SidOscillator(o) && selects(
                o,
                patch.waveform,
            )
        }),
{
    let patch = patches[plan.segments@[0].patch->0 as int];
    let profile = patch.voices@[plan.segments@[0].profile->0 as int];
    let first = super::select::first_instrument(
        plan,
        notes,
        patches,
        states,
        model,
        clock,
        input.sound,
    );
    sounds_keep_their_waveforms(
        plan.instrument_id,
        plan.voice,
        patch,
        profile,
        optional_view(plan.waveform_program),
        noise_frequencies(
            optional_view(plan.waveform_program),
            plan.timeline@,
            notes,
            states,
            plan.voice.0 - 1,
        ),
        model,
        clock,
        input.sound,
    );
    assert(!tuned_percussion(patch));
    assert(first.modules[0].id == ModuleId::Sid1);
    let held = if input.measured_envelope {
        with_held_envelopes(first)
    } else {
        first
    };
    let limited = match output_cutoff(plan, patches) {
        Some(cutoff) => with_output_lowpass(held, cutoff),
        None => held,
    };
    output_connection_is(held.connections, 0);
    assert(limited.modules[0] == held.modules[0]);
    let fitted = as_measured(
        limited,
        common_seed(plan.timeline@, notes, states, plan.voice.0 - 1, input.resets@),
        coupling(plan, notes, states),
        static_source(input.silent_sources@),
    );
    other_modules_are(fitted.modules);
}

} // verus!
