//! That the instruments of a song are wired, whatever was measured of its tracks.

use crate::analysis::frame::ProgramFrame;
use crate::analysis::patch::Patch;
use crate::analysis::program::{SystemClock, VoiceId};
use crate::header::SidModel;
use super::super::modern::{conventional, is_kept, Kept};
use super::super::naming::full_name;
use super::super::oscillator::{median, noise_frequencies};
use super::super::timbre::{observed, optional_view, tuned_percussion};
use super::super::tracks::{SynthNote, TrackPlan};
use super::refine::{
    as_measured, common_seed, of_filter, other_connections, other_modules, output_connection,
    output_connection_is, output_lowpass_stays_wired, static_source, with_held_envelopes,
    with_output_lowpass, without_filter,
};
use super::select::{
    coupling, first_instrument, generic_pulse, heard_frequencies, output_cutoff, plain_adsr,
    raw_trace, sound_source, track_instrument, track_sound, InstrumentInput, SoundInput,
};
use super::{
    built_connections, built_instruments_are_wired, built_modules, drums_are_wired, has_module,
    is_wired, percussion_connections, percussion_modules, simple_source, source_path, text_view,
    used_neighbour, wire, Connection, EnvelopeSetting, FilterSpec, InstrumentView, ModuleId,
    ModuleView, NoiseAccent, Port, SourceView,
};
use vstd::prelude::*;

verus! {

/// Whether something reaches the output without the filter in between.
pub open spec fn reaches_output(connections: Seq<Connection>) -> bool {
    exists|k: int|
        0 <= k < connections.len() && (#[trigger] connections[k]).to == ModuleId::Out1
            && connections[k].to_port == Port::In && !of_filter(connections[k].from)
}

/// Whether an instrument is wired, calls its modules after what they are, and can
/// do without its filter.
pub open spec fn sturdy(i: InstrumentView, most: int) -> bool {
    &&& is_wired(i.modules, i.connections)
    &&& conventional(i.modules)
    &&& has_module(i.modules, ModuleId::Flt1) ==> has_module(i.modules, ModuleId::Sid1)
        && reaches_output(i.connections)
    &&& i.modules.len() <= most
}

/// Whether two instruments have the same modules, set differently.
pub open spec fn same_graph(i: InstrumentView, j: InstrumentView) -> bool {
    &&& i.connections == j.connections
    &&& i.modules.len() == j.modules.len()
    &&& forall|k: int|
        0 <= k < i.modules.len() ==> {
            &&& (#[trigger] j.modules[k]).id == i.modules[k].id
            &&& is_kept(j.modules[k], Kept::Envelope) == is_kept(i.modules[k], Kept::Envelope)
            &&& is_kept(j.modules[k], Kept::Amplifier) == is_kept(i.modules[k], Kept::Amplifier)
            &&& is_kept(j.modules[k], Kept::Output) == is_kept(i.modules[k], Kept::Output)
        }
}

proof fn same_ids(i: InstrumentView, j: InstrumentView, id: ModuleId)
    requires
        same_graph(i, j),
    ensures
        has_module(i.modules, id) == has_module(j.modules, id),
{
    if has_module(i.modules, id) {
        let k = choose|k: int| 0 <= k < i.modules.len() && (#[trigger] i.modules[k]).id == id;
        assert(j.modules[k].id == id);
    }
    if has_module(j.modules, id) {
        let k = choose|k: int| 0 <= k < j.modules.len() && (#[trigger] j.modules[k]).id == id;
        assert(i.modules[k].id == id);
    }
}

proof fn settings_keep_sturdy(i: InstrumentView, j: InstrumentView, most: int)
    requires
        same_graph(i, j),
        sturdy(i, most),
    ensures
        sturdy(j, most),
{
    assert forall|k: int| 0 <= k < j.connections.len() implies has_module(
        j.modules,
        (#[trigger] j.connections[k]).from,
    ) && has_module(j.modules, j.connections[k].to) by {
        assert(has_module(i.modules, i.connections[k].from));
        same_ids(i, j, i.connections[k].from);
        same_ids(i, j, i.connections[k].to);
    }
    same_ids(i, j, ModuleId::Env1);
    same_ids(i, j, ModuleId::Amp1);
    same_ids(i, j, ModuleId::Out1);
    same_ids(i, j, ModuleId::Flt1);
    same_ids(i, j, ModuleId::Sid1);
    assert forall|a: int, b: int| 0 <= a < b < j.modules.len() implies (#[trigger] j.modules[a]).id
        != (#[trigger] j.modules[b]).id by {
        assert(i.modules[a].id != i.modules[b].id);
    }
}

proof fn lowpass_keeps_sturdy(i: InstrumentView, cutoff: u32, most: int)
    requires
        sturdy(i, most - 1),
        !has_module(i.modules, ModuleId::Flt2),
    ensures
        sturdy(with_output_lowpass(i, cutoff), most),
{
    let r = with_output_lowpass(i, cutoff);
    output_lowpass_stays_wired(i, cutoff);
    output_connection_is(i.connections, 0);
    if output_connection(i.connections, 0) is Some {
        let n = i.modules.len() as int;
        assert forall|id: ModuleId| #[trigger] has_module(i.modules, id) implies has_module(
            r.modules,
            id,
        ) by {
            let k = choose|k: int| 0 <= k < n && (#[trigger] i.modules[k]).id == id;
            assert(r.modules[k].id == id);
        }
        assert forall|id: ModuleId|
            id != ModuleId::Flt2 && #[trigger] has_module(r.modules, id) implies has_module(
            i.modules,
            id,
        ) by {
            let k = choose|k: int| 0 <= k < r.modules.len() && (#[trigger] r.modules[k]).id == id;
            assert(k < n);
            assert(i.modules[k].id == id);
        }
        assert(has_module(i.modules, ModuleId::Env1));
        assert(has_module(i.modules, ModuleId::Amp1));
        assert(has_module(i.modules, ModuleId::Out1));
        assert forall|k: int| 0 <= k < r.modules.len() implies {
            &&& is_kept(#[trigger] r.modules[k], Kept::Envelope) <==> r.modules[k].id
                == ModuleId::Env1 || r.modules[k].id == ModuleId::Env2
            &&& is_kept(r.modules[k], Kept::Amplifier) <==> r.modules[k].id == ModuleId::Amp1
                || r.modules[k].id == ModuleId::Amp2
            &&& is_kept(r.modules[k], Kept::Output) <==> r.modules[k].id == ModuleId::Out1
        } by {
            if k < n {
                assert(r.modules[k] == i.modules[k]);
            }
        }
        let c = r.connections[i.connections.len() as int];
        assert(c == wire(ModuleId::Flt2, Port::Out, ModuleId::Out1, Port::In));
        assert(reaches_output(r.connections));
        if has_module(r.modules, ModuleId::Flt1) {
            assert(has_module(i.modules, ModuleId::Flt1));
        }
    }
}

proof fn others_listed(modules: Seq<ModuleView>)
    requires
        forall|a: int, b: int|
            0 <= a < b < modules.len() ==> (#[trigger] modules[a]).id != (#[trigger] modules[b]).id,
    ensures
        other_modules(modules).len() <= modules.len(),
        forall|k: int|
            0 <= k < other_modules(modules).len() ==> modules.contains(
                #[trigger] other_modules(modules)[k],
            ) && !of_filter(other_modules(modules)[k].id),
        forall|k: int|
            0 <= k < modules.len() && !of_filter((#[trigger] modules[k]).id) ==> has_module(
                other_modules(modules),
                modules[k].id,
            ),
        forall|a: int, b: int|
            0 <= a < b < other_modules(modules).len() ==> (#[trigger] other_modules(modules)[a]).id
                != (#[trigger] other_modules(modules)[b]).id,
    decreases modules.len(),
{
    if modules.len() > 0 {
        let shorter = modules.drop_last();
        others_listed(shorter);
        let before = other_modules(shorter);
        let now = other_modules(modules);
        assert forall|m: ModuleView| shorter.contains(m) implies #[trigger] modules.contains(m) by {
            let k = choose|k: int| 0 <= k < shorter.len() && shorter[k] == m;
            assert(modules[k] == m);
        }
        assert(modules.contains(modules.last()));
        assert forall|k: int| 0 <= k < modules.len() && !of_filter(
            (#[trigger] modules[k]).id,
        ) implies has_module(now, modules[k].id) by {
            if k < shorter.len() {
                assert(shorter[k] == modules[k]);
                let j = choose|j: int|
                    0 <= j < before.len() && (#[trigger] before[j]).id == modules[k].id;
                assert(now[j].id == modules[k].id);
            } else {
                assert(now[now.len() - 1].id == modules[k].id);
            }
        }
        assert forall|a: int, b: int| 0 <= a < b < now.len() implies (#[trigger] now[a]).id != (
        #[trigger] now[b]).id by {
            assert(now[a] == before[a]);
            if b < before.len() {
                assert(now[b] == before[b]);
            } else {
                assert(shorter.contains(before[a]));
                let k = choose|k: int| 0 <= k < shorter.len() && shorter[k] == before[a];
                assert(modules[k].id != modules[modules.len() - 1].id);
            }
        }
    }
}

proof fn other_connections_listed(c: Seq<Connection>)
    ensures
        forall|k: int|
            0 <= k < other_connections(c).len() ==> c.contains(#[trigger] other_connections(c)[k])
                && !of_filter(other_connections(c)[k].from) && !of_filter(
                other_connections(c)[k].to,
            ),
        forall|k: int|
            0 <= k < c.len() && !of_filter((#[trigger] c[k]).from) && !of_filter(c[k].to)
                ==> other_connections(c).contains(c[k]),
    decreases c.len(),
{
    if c.len() > 0 {
        let shorter = c.drop_last();
        other_connections_listed(shorter);
        let before = other_connections(shorter);
        let now = other_connections(c);
        assert forall|x: Connection| shorter.contains(x) implies #[trigger] c.contains(x) by {
            let k = choose|k: int| 0 <= k < shorter.len() && shorter[k] == x;
            assert(c[k] == x);
        }
        assert(c.contains(c.last()));
        assert forall|k: int| 0 <= k < c.len() && !of_filter((#[trigger] c[k]).from) && !of_filter(
            c[k].to,
        ) implies now.contains(c[k]) by {
            if k < shorter.len() {
                assert(shorter[k] == c[k]);
                let j = choose|j: int| 0 <= j < before.len() && before[j] == c[k];
                assert(now[j] == c[k]);
            } else {
                assert(now[now.len() - 1] == c[k]);
            }
        }
    }
}

/// A wired instrument that can do without its filter stays wired without it.
pub proof fn stripped_instruments_stay_wired(i: InstrumentView, most: int)
    requires
        sturdy(i, most),
    ensures
        sturdy(without_filter(i), most),
{
    if has_module(i.modules, ModuleId::Flt1) {
        let r = without_filter(i);
        let kept = other_connections(i.connections);
        let direct = wire(ModuleId::Sid1, Port::Out, ModuleId::Amp1, Port::In);
        others_listed(i.modules);
        other_connections_listed(i.connections);
        assert forall|id: ModuleId| !of_filter(id) && #[trigger] has_module(
            i.modules,
            id,
        ) implies has_module(r.modules, id) by {
            let k = choose|k: int| 0 <= k < i.modules.len() && (#[trigger] i.modules[k]).id == id;
            assert(!of_filter(i.modules[k].id));
        }
        assert(has_module(i.modules, ModuleId::Env1));
        assert(has_module(i.modules, ModuleId::Amp1));
        assert(has_module(i.modules, ModuleId::Out1));
        assert(has_module(i.modules, ModuleId::Sid1));
        assert forall|k: int| 0 <= k < r.connections.len() implies has_module(
            r.modules,
            (#[trigger] r.connections[k]).from,
        ) && has_module(r.modules, r.connections[k].to) by {
            if k < kept.len() {
                assert(r.connections[k] == kept[k]);
                assert(i.connections.contains(kept[k]));
                let j = choose|j: int|
                    0 <= j < i.connections.len() && i.connections[j] == kept[k];
                assert(has_module(i.modules, i.connections[j].from));
                assert(has_module(i.modules, i.connections[j].to));
            } else {
                assert(r.connections[k] == direct);
            }
        }
        let o = choose|k: int|
            0 <= k < i.connections.len() && (#[trigger] i.connections[k]).to == ModuleId::Out1
                && i.connections[k].to_port == Port::In && !of_filter(i.connections[k].from);
        assert(kept.contains(i.connections[o]));
        let q = choose|q: int| 0 <= q < kept.len() && kept[q] == i.connections[o];
        assert(r.connections[q] == i.connections[o]);
        assert(reaches_output(r.connections));
        assert forall|k: int| 0 <= k < r.modules.len() implies {
            &&& is_kept(#[trigger] r.modules[k], Kept::Envelope) <==> r.modules[k].id
                == ModuleId::Env1 || r.modules[k].id == ModuleId::Env2
            &&& is_kept(r.modules[k], Kept::Amplifier) <==> r.modules[k].id == ModuleId::Amp1
                || r.modules[k].id == ModuleId::Amp2
            &&& is_kept(r.modules[k], Kept::Output) <==> r.modules[k].id == ModuleId::Out1
        } by {
            assert(i.modules.contains(r.modules[k]));
            let j = choose|j: int| 0 <= j < i.modules.len() && i.modules[j] == r.modules[k];
            assert(i.modules[j] == r.modules[k]);
        }
        if has_module(r.modules, ModuleId::Flt1) {
            let k = choose|k: int|
                0 <= k < r.modules.len() && (#[trigger] r.modules[k]).id == ModuleId::Flt1;
            assert(!of_filter(r.modules[k].id));
        }
    }
}

proof fn built_are_sturdy(
    i: InstrumentView,
    s: SourceView,
    envelope: EnvelopeSetting,
    filter: Option<FilterSpec>,
    neighbour: Option<u16>,
    script: Option<Seq<char>>,
)
    requires
        i.modules == built_modules(s, envelope, filter, neighbour, script),
        i.connections == built_connections(s, filter, neighbour, script is Some),
    ensures
        sturdy(i, 8),
        !has_module(i.modules, ModuleId::Flt2),
{
    built_instruments_are_wired(s, envelope, filter, neighbour, script);
    let m = i.modules;
    let used = used_neighbour(s, neighbour) is Some;
    assert(m[0].id == ModuleId::Sid1);
    assert(m[1].id == ModuleId::Env1);
    assert(m[2].id == ModuleId::Amp1);
    assert(m[3].id == ModuleId::Out1);
    let p = source_path(filter).len() as int;
    assert(i.connections[p + 1] == wire(ModuleId::Amp1, Port::Out, ModuleId::Out1, Port::In));
}

proof fn drums_are_sturdy(
    i: InstrumentView,
    body: EnvelopeSetting,
    noise: Option<NoiseAccent>,
    model: SidModel,
    clock: SystemClock,
)
    requires
        i.modules == percussion_modules(body, noise, model, clock),
        i.connections == percussion_connections(),
    ensures
        sturdy(i, 8),
        !has_module(i.modules, ModuleId::Flt2),
{
    drums_are_wired(body, noise, model, clock);
    let m = i.modules;
    assert(m[1].id == ModuleId::Env1);
    assert(m[2].id == ModuleId::Amp1);
    assert(m[7].id == ModuleId::Out1);
}

proof fn first_instruments_are_sturdy(
    plan: TrackPlan,
    notes: Seq<SynthNote>,
    patches: Seq<Patch>,
    states: Seq<ProgramFrame>,
    model: SidModel,
    clock: SystemClock,
    input: SoundInput,
)
    ensures
        sturdy(first_instrument(plan, notes, patches, states, model, clock, input), 8),
        !has_module(
            first_instrument(plan, notes, patches, states, model, clock, input).modules,
            ModuleId::Flt2,
        ),
{
    let i = first_instrument(plan, notes, patches, states, model, clock, input);
    let v = plan.voice.0 - 1;
    if plan.drum_drop {
        drums_are_sturdy(i, EnvelopeSetting::DrumBody, input.noise, model, clock);
    } else if let Some(sound) = track_sound(plan.segments@) {
        let patch = patches[sound.0 as int];
        let profile = patch.voices@[sound.1 as int];
        let program = optional_view(plan.waveform_program);
        if tuned_percussion(patch) && plan.waveform_program is None && observed(profile) is None {
            drums_are_sturdy(i, EnvelopeSetting::Adsr(patch.adsr), input.noise, model, clock);
        } else {
            built_are_sturdy(
                i,
                sound_source(
                    patch,
                    profile,
                    program,
                    noise_frequencies(program, plan.timeline@, notes, states, v),
                    model,
                    clock,
                    input,
                ),
                EnvelopeSetting::Adsr(patch.adsr),
                input.filter,
                input.neighbour,
                text_view(input.script),
            );
        }
    } else {
        raw_instruments_are_sturdy(plan, notes, states, model, clock, input.filter);
    }
}

proof fn raw_instruments_are_sturdy(
    plan: TrackPlan,
    notes: Seq<SynthNote>,
    states: Seq<ProgramFrame>,
    model: SidModel,
    clock: SystemClock,
    filter: Option<FilterSpec>,
)
    ensures
        sturdy(raw_trace(plan, notes, states, model, clock, filter), 8),
        !has_module(
            raw_trace(plan, notes, states, model, clock, filter).modules,
            ModuleId::Flt2,
        ),
{
    let i = raw_trace(plan, notes, states, model, clock, filter);
    let v = plan.voice.0 - 1;
    let f = notes[plan.timeline@[0].1 as int].event.start_frame as int;
    if plan.timeline@.len() == 0 || f >= states.len() || states[f].voices@[v].waveform / 16 == 0 {
        built_are_sturdy(
            i,
            simple_source(4, 2048, model, clock),
            EnvelopeSetting::Adsr(plain_adsr()),
            None,
            None,
            None,
        );
    } else {
        let shape = plan.shape.view();
        built_are_sturdy(
            i,
            SourceView {
                ring_mod: shape.has_ring,
                hard_sync: shape.has_sync,
                ..simple_source(
                    states[f].voices@[v].waveform / 16,
                    states[f].voices@[v].pulse_width,
                    model,
                    clock,
                )
            },
            EnvelopeSetting::Adsr(states[f].voices@[v].adsr),
            if states[f].filter.routing@[v] {
                filter
            } else {
                None
            },
            median(
                heard_frequencies(
                    plan.timeline@,
                    notes,
                    states,
                    (v + 2) % 3,
                    plan.timeline@.len() as int,
                ),
            ),
            None,
        );
    }
}

/// A plain pulse is wired.
pub proof fn plain_pulses_are_wired(id: u32, voice: VoiceId, model: SidModel, clock: SystemClock)
    ensures
        sturdy(generic_pulse(id, voice, model, clock), 8),
{
    built_are_sturdy(
        generic_pulse(id, voice, model, clock),
        simple_source(4, 2048, model, clock),
        EnvelopeSetting::Adsr(plain_adsr()),
        None,
        None,
        None,
    );
}

/// Every instrument of a track is wired, calls its modules after what they are and
/// has few of them, whatever was measured, and whether or not all tracks share a
/// filter.
pub proof fn track_instruments_are_wired(
    plan: TrackPlan,
    notes: Seq<SynthNote>,
    patches: Seq<Patch>,
    states: Seq<ProgramFrame>,
    model: SidModel,
    clock: SystemClock,
    input: InstrumentInput,
    shared_filter: bool,
)
    ensures
        sturdy(
            track_instrument(plan, notes, patches, states, model, clock, input, shared_filter),
            9,
        ),
{
    let first = first_instrument(plan, notes, patches, states, model, clock, input.sound);
    first_instruments_are_sturdy(plan, notes, patches, states, model, clock, input.sound);
    let held = if input.measured_envelope {
        with_held_envelopes(first)
    } else {
        first
    };
    assert(same_graph(first, held));
    settings_keep_sturdy(first, held, 8);
    same_ids(first, held, ModuleId::Flt2);
    let limited = match output_cutoff(plan, patches) {
        Some(cutoff) => with_output_lowpass(held, cutoff),
        None => held,
    };
    if let Some(cutoff) = output_cutoff(plan, patches) {
        lowpass_keeps_sturdy(held, cutoff, 9);
    }
    let fitted = as_measured(
        limited,
        common_seed(plan.timeline@, notes, states, plan.voice.0 - 1, input.resets@),
        coupling(plan, notes, states),
        static_source(input.silent_sources@),
    );
    assert(same_graph(limited, fitted));
    settings_keep_sturdy(limited, fitted, 9);
    let named = InstrumentView { name: full_name(plan, patches), ..fitted };
    assert(same_graph(fitted, named));
    settings_keep_sturdy(fitted, named, 9);
    stripped_instruments_stay_wired(named, 9);
}

} // verus!
