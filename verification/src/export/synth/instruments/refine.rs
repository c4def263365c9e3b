//! Fitting an instrument to what was measured of its notes.

use crate::analysis::frame::{NoteEvent, ProgramFrame};
use super::super::articulation::followed;
use super::super::ownership::timeline_fits;
use super::super::timbre::has_triangle;
use super::super::tracks::{SynthNote, TrackPlan};
use super::{
    connect, has_module, is_wired, module, module_at, module_views, push_module, wire, Connection,
    EnvelopeSetting, Instrument, InstrumentView, Module, ModuleId, ModuleView, Parameters,
    ParametersView, Port,
};
use super::super::oscillator::OscillatorView;
use vstd::prelude::*;

verus! {

/// The place of the first connection to the output, from `k` on.
pub open spec fn output_connection(connections: Seq<Connection>, k: int) -> Option<int>
    decreases connections.len() - k,
{
    if k < 0 || k >= connections.len() {
        None
    } else if connections[k].to == ModuleId::Out1 && connections[k].to_port == Port::In {
        Some(k)
    } else {
        output_connection(connections, k + 1)
    }
}

/// An instrument with a plain low-pass before its output.
pub open spec fn with_output_lowpass(i: InstrumentView, cutoff: u32) -> InstrumentView {
    match output_connection(i.connections, 0) {
        Some(k) => InstrumentView {
            modules: i.modules.push(
                module_at(ModuleId::Flt2, 640, 32, ParametersView::OutputFilter(cutoff)),
            ),
            connections: i.connections.update(
                k,
                Connection {
                    to: ModuleId::Flt2,
                    to_port: Port::In,
                    ..i.connections[k]
                },
            ).push(wire(ModuleId::Flt2, Port::Out, ModuleId::Out1, Port::In)),
            ..i
        },
        None => i,
    }
}

/// Puts a plain low-pass before the output of an instrument.
pub fn add_output_lowpass(instrument: &mut Instrument, cutoff: u32)
    ensures
        final(instrument).view() == with_output_lowpass(old(instrument).view(), cutoff),
{
    let ghost before = instrument.view();
    let mut k: usize = 0;
    while k < instrument.connections.len() && !(instrument.connections[k].to == ModuleId::Out1
        && instrument.connections[k].to_port == Port::In)
        invariant
            k <= instrument.connections@.len(),
            instrument.view() == before,
            *instrument == *old(instrument),
            output_connection(before.connections, 0) == output_connection(
                before.connections,
                k as int,
            ),
        decreases instrument.connections@.len() - k,
    {
        k += 1;
    }
    if k == instrument.connections.len() {
        return;
    }
    let mut c: Connection = instrument.connections[k];
    c.to = ModuleId::Flt2;
    c.to_port = Port::In;
    instrument.connections.set(k, c);
    instrument.connections.push(
        connect(ModuleId::Flt2, Port::Out, ModuleId::Out1, Port::In),
    );
    push_module(
        &mut instrument.modules,
        module(ModuleId::Flt2, 640, 32, Parameters::OutputFilter(cutoff)),
    );
    assert(instrument.view() =~= with_output_lowpass(before, cutoff));
}

pub(crate) proof fn output_connection_is(connections: Seq<Connection>, k: int)
    requires
        0 <= k,
    ensures
        match output_connection(connections, k) {
            Some(o) => k <= o < connections.len() && connections[o].to == ModuleId::Out1
                && connections[o].to_port == Port::In,
            None => forall|j: int|
                k <= j < connections.len() ==> (#[trigger] connections[j]).to != ModuleId::Out1
                    || connections[j].to_port != Port::In,
        },
    decreases connections.len() - k,
{
    if k < connections.len() && !(connections[k].to == ModuleId::Out1 && connections[k].to_port
        == Port::In) {
        output_connection_is(connections, k + 1);
    }
}

proof fn module_stays(modules: Seq<ModuleView>, m: ModuleView, id: ModuleId)
    requires
        has_module(modules, id),
    ensures
        has_module(modules.push(m), id),
{
    let i = choose|i: int| 0 <= i < modules.len() && (#[trigger] modules[i]).id == id;
    assert(modules.push(m)[i].id == id);
}

/// A wired instrument stays wired when it gets a low-pass before its output.
pub proof fn output_lowpass_stays_wired(i: InstrumentView, cutoff: u32)
    requires
        is_wired(i.modules, i.connections),
        !has_module(i.modules, ModuleId::Flt2),
    ensures
        ({
            let r = with_output_lowpass(i, cutoff);
            is_wired(r.modules, r.connections)
        }),
{
    let r = with_output_lowpass(i, cutoff);
    output_connection_is(i.connections, 0);
    let o = choose|k: int|
        0 <= k < i.connections.len() && (#[trigger] i.connections[k]).to == ModuleId::Out1
            && i.connections[k].to_port == Port::In;
    assert(output_connection(i.connections, 0) is Some);
    let at = output_connection(i.connections, 0)->0;
    let m = module_at(ModuleId::Flt2, 640, 32, ParametersView::OutputFilter(cutoff));
    assert(r.modules == i.modules.push(m));
    assert(has_module(i.modules, i.connections[at].to));
    module_stays(i.modules, m, ModuleId::Out1);
    assert(r.modules[i.modules.len() as int].id == ModuleId::Flt2);
    assert forall|k: int| 0 <= k < r.connections.len() implies has_module(
        r.modules,
        (#[trigger] r.connections[k]).from,
    ) && has_module(r.modules, r.connections[k].to) by {
        if k < i.connections.len() {
            assert(has_module(i.modules, i.connections[k].from));
            assert(has_module(i.modules, i.connections[k].to));
            module_stays(i.modules, m, i.connections[k].from);
            module_stays(i.modules, m, i.connections[k].to);
        }
    }
    assert(r.connections[i.connections.len() as int].to == ModuleId::Out1);
    assert forall|a: int, b: int| 0 <= a < b < r.modules.len() implies (#[trigger] r.modules[a]).id
        != (#[trigger] r.modules[b]).id by {
        if b < i.modules.len() {
            assert(i.modules[a].id != i.modules[b].id);
        } else {
            assert(i.modules[a].id != ModuleId::Flt2);
        }
    }
}

/// A module whose envelope is held open.
pub open spec fn held_module(m: ModuleView) -> ModuleView {
    match m.parameters {
        ParametersView::Envelope(_) => ModuleView {
            parameters: ParametersView::Envelope(EnvelopeSetting::Held),
            ..m
        },
        _ => m,
    }
}

/// An instrument that leaves the level of its notes to automation.
pub open spec fn with_held_envelopes(i: InstrumentView) -> InstrumentView {
    InstrumentView {
        velocity_sensitive: false,
        modules: Seq::new(i.modules.len(), |k: int| held_module(i.modules[k])),
        ..i
    }
}

/// Leaves the level of an instrument's notes to automation.
pub fn enable_measured_envelope(instrument: &mut Instrument)
    ensures
        final(instrument).view() == with_held_envelopes(old(instrument).view()),
{
    let ghost before = instrument.view();
    let ghost wanted = with_held_envelopes(before);
    let count: usize = instrument.modules.len();
    let mut rest: Vec<Module> = Vec::new();
    std::mem::swap(&mut instrument.modules, &mut rest);
    let mut out: Vec<Module> = Vec::new();
    let mut k: usize = 0;
    while k < count
        invariant
            k <= count,
            count == before.modules.len(),
            wanted == with_held_envelopes(before),
            rest@.len() == count - k,
            forall|x: int|
                0 <= x < rest@.len() ==> (#[trigger] rest@[x]).view() == before.modules[k + x],
            out@.len() == k,
            forall|x: int| 0 <= x < k ==> (#[trigger] out@[x]).view() == wanted.modules[x],
        decreases count - k,
    {
        let ghost left = rest@;
        let mut m: Module = rest.remove(0);
        proof {
            assert(m.view() == before.modules[k + 0]);
            assert forall|x: int| 0 <= x < rest@.len() implies (#[trigger] rest@[x]).view()
                == before.modules[k + 1 + x] by {
                assert(rest@[x] == left[x + 1]);
            }
        }
        let envelope: bool = match &m.parameters {
            Parameters::Envelope(_) => true,
            _ => false,
        };
        if envelope {
            m.parameters = Parameters::Envelope(EnvelopeSetting::Held);
        }
        assert(m.view() == wanted.modules[k as int]);
        out.push(m);
        k += 1;
    }
    instrument.modules = out;
    instrument.velocity_sensitive = false;
    assert(instrument.view() =~= wanted);
}

/// The state of the noise with which a note starts: known if the oscillator was
/// reset and the noise was not disturbed.
pub open spec fn start_seed(
    event: NoteEvent,
    states: Seq<ProgramFrame>,
    v: int,
    reset: bool,
) -> Option<u32> {
    let f = event.start_frame as int;
    if reset && f < states.len() && !states[f].digital_voices@[v].noise_state_poisoned {
        Some(states[f].digital_voices@[v].noise_shift_register)
    } else {
        None
    }
}

/// The state of the noise with which all notes of a track start, if it is the
/// same for all.
pub open spec fn common_seed(
    timeline: Seq<(usize, usize)>,
    notes: Seq<SynthNote>,
    states: Seq<ProgramFrame>,
    v: int,
    resets: Seq<bool>,
) -> Option<u32> {
    if timeline.len() == 0 {
        None
    } else {
        let first = start_seed(notes[timeline[0].1 as int].event, states, v, resets[0]);
        if forall|k: int|
            0 <= k < timeline.len() ==> start_seed(
                notes[(#[trigger] timeline[k]).1 as int].event,
                states,
                v,
                resets[k],
            ) == first {
            first
        } else {
            None
        }
    }
}

fn seed_of(event: &NoteEvent, states: &[ProgramFrame], v: usize, reset: bool) -> (r: Option<u32>)
    requires
        v < 3,
    ensures
        r == start_seed(*event, states@, v as int, reset),
{
    let f: usize = event.start_frame as usize;
    if reset && f < states.len() && !states[f].digital_voices[v].noise_state_poisoned {
        Some(states[f].digital_voices[v].noise_shift_register)
    } else {
        None
    }
}

/// Finds the state of the noise with which all notes of a track start. `resets`
/// tells of each entry of the timeline whether its oscillator was reset.
pub fn find_common_seed(
    plan: &TrackPlan,
    notes: &[SynthNote],
    states: &[ProgramFrame],
    resets: &[bool],
) -> (r: Option<u32>)
    requires
        plan.voice.valid(),
        timeline_fits(plan.timeline@, notes@),
        resets@.len() == plan.timeline@.len(),
    ensures
        r == common_seed(plan.timeline@, notes@, states@, plan.voice.0 - 1, resets@),
{
    if plan.timeline.len() == 0 {
        return None;
    }
    let v: usize = plan.voice.to_index();
    assert(plan.timeline@[0].1 < notes@.len());
    let first: Option<u32> = seed_of(&notes[plan.timeline[0].1].event, states, v, resets[0]);
    let mut k: usize = 0;
    while k < plan.timeline.len()
        invariant
            k <= plan.timeline@.len(),
            0 < plan.timeline@.len(),
            v < 3,
            v == plan.voice.0 - 1,
            timeline_fits(plan.timeline@, notes@),
            resets@.len() == plan.timeline@.len(),
            first == start_seed(
                notes@[plan.timeline@[0].1 as int].event,
                states@,
                v as int,
                resets@[0],
            ),
            forall|j: int|
                0 <= j < k ==> start_seed(
                    notes@[(#[trigger] plan.timeline@[j]).1 as int].event,
                    states@,
                    v as int,
                    resets@[j],
                ) == first,
        decreases plan.timeline@.len() - k,
    {
        assert(plan.timeline@[k as int].1 < notes@.len());
        let here: Option<u32> = seed_of(&notes[plan.timeline[k].1].event, states, v, resets[k]);
        if here != first {
            assert(start_seed(
                notes@[plan.timeline@[k as int].1 as int].event,
                states@,
                v as int,
                resets@[k as int],
            ) != first);
            return None;
        }
        k += 1;
    }
    first
}

/// What was measured of the coupling between voices during a track's notes.
#[derive(Debug, Clone, Copy, PartialEq, Eq, Structural)]
pub struct HardwareEvidence {
    /// Whether all frames are known exactly.
    pub exact: bool,
    pub sync_active: bool,
    pub ring_active: bool,
}

/// Whether all frames that a track's notes are followed in are known exactly.
pub open spec fn frames_are_exact(
    timeline: Seq<(usize, usize)>,
    notes: Seq<SynthNote>,
    states: Seq<ProgramFrame>,
) -> bool {
    forall|k: int, f: int|
        #![trigger timeline[k], states[f]]
        0 <= k < timeline.len() && is_followed(
            notes[timeline[k].1 as int].event,
            states,
            f,
        ) ==> states[f].digital_state_exact
}

/// Whether a note is followed in a frame.
pub open spec fn is_followed(event: NoteEvent, states: Seq<ProgramFrame>, f: int) -> bool {
    event.start_frame <= f < event.start_frame + followed(event, states).len()
}

/// The voice that rings and syncs another one.
pub open spec fn source_voice(v: int) -> int {
    (v + 2) % 3
}

/// Whether a voice is synced at a frame.
pub open spec fn syncs_at(state: ProgramFrame, v: int) -> bool {
    state.digital_voices@[source_voice(v)].source_msb_edges > 0
        && state.digital_voices@[v].sync_resets > 0
}

/// Whether a voice is ring modulated at a frame.
pub open spec fn rings_at(state: ProgramFrame, v: int) -> bool {
    state.digital_voices@[source_voice(v)].source_msb_edges > 0 && has_triangle(
        state.voices@[v].waveform,
    )
}

/// Whether a voice is synced at some frame of a track's notes.
pub open spec fn syncs_somewhere(
    timeline: Seq<(usize, usize)>,
    notes: Seq<SynthNote>,
    states: Seq<ProgramFrame>,
    v: int,
) -> bool {
    exists|k: int, f: int|
        #![trigger timeline[k], states[f]]
        0 <= k < timeline.len() && is_followed(notes[timeline[k].1 as int].event, states, f)
            && syncs_at(states[f], v)
}

/// Whether a voice is ring modulated at some frame of a track's notes.
pub open spec fn rings_somewhere(
    timeline: Seq<(usize, usize)>,
    notes: Seq<SynthNote>,
    states: Seq<ProgramFrame>,
    v: int,
) -> bool {
    exists|k: int, f: int|
        #![trigger timeline[k], states[f]]
        0 <= k < timeline.len() && is_followed(notes[timeline[k].1 as int].event, states, f)
            && rings_at(states[f], v)
}

/// Measures the coupling between voices during a track's notes.
pub fn measure_hardware(plan: &TrackPlan, notes: &[SynthNote], states: &[ProgramFrame]) -> (r:
    HardwareEvidence)
    requires
        plan.voice.valid(),
        timeline_fits(plan.timeline@, notes@),
    ensures
        r.exact == frames_are_exact(plan.timeline@, notes@, states@),
        r.sync_active == syncs_somewhere(plan.timeline@, notes@, states@, plan.voice.0 - 1),
        r.ring_active == rings_somewhere(plan.timeline@, notes@, states@, plan.voice.0 - 1),
{
    let v: usize = plan.voice.to_index();
    let source: usize = (v + 2) % 3;
    let ghost t = plan.timeline@;
    let mut exact: bool = true;
    let mut sync: bool = false;
    let mut ring: bool = false;
    let mut k: usize = 0;
    while k < plan.timeline.len()
        invariant
            k <= t.len(),
            t == plan.timeline@,
            v < 3,
            v == plan.voice.0 - 1,
            source < 3,
            source == source_voice(v as int),
            timeline_fits(t, notes@),
            !exact ==> !frames_are_exact(t, notes@, states@),
            sync ==> syncs_somewhere(t, notes@, states@, v as int),
            ring ==> rings_somewhere(t, notes@, states@, v as int),
            forall|j: int, f: int|
                #![trigger t[j], states@[f]]
                0 <= j < k && is_followed(notes@[t[j].1 as int].event, states@, f) ==> (exact
                    ==> states@[f].digital_state_exact) && (syncs_at(states@[f], v as int) ==> sync)
                    && (rings_at(states@[f], v as int) ==> ring),
        decreases t.len() - k,
    {
        assert(t[k as int].1 < notes@.len());
        let event: &NoteEvent = &notes[plan.timeline[k].1].event;
        let last: Option<u32> = match event.sound_end {
            Some(f) => Some(f),
            None => event.end_frame,
        };
        let end: usize = match last {
            Some(f) => if (f as usize) < states.len() {
                f as usize + 1
            } else {
                states.len()
            },
            None => states.len(),
        };
        let start: usize = event.start_frame as usize;
        let ghost len = followed(*event, states@).len() as int;
        assert(start <= end ==> len == end - start);
        assert(start > end ==> len == 0);
        let mut f: usize = start;
        while f < end
            invariant
                start <= f,
                start <= end ==> f <= end,
                end <= states@.len(),
                start <= end ==> len == end - start,
                len == followed(*event, states@).len(),
                start == event.start_frame,
                k < t.len(),
                *event == notes@[t[k as int].1 as int].event,
                v < 3,
                v == plan.voice.0 - 1,
                source < 3,
                source == source_voice(v as int),
                !exact ==> !frames_are_exact(t, notes@, states@),
                sync ==> syncs_somewhere(t, notes@, states@, v as int),
                ring ==> rings_somewhere(t, notes@, states@, v as int),
                forall|j: int, f: int|
                    #![trigger t[j], states@[f]]
                    0 <= j < k && is_followed(notes@[t[j].1 as int].event, states@, f) ==> (exact
                        ==> states@[f].digital_state_exact) && (syncs_at(states@[f], v as int)
                        ==> sync) && (rings_at(states@[f], v as int) ==> ring),
                forall|g: int|
                    start <= g < f ==> (exact ==> (#[trigger] states@[g]).digital_state_exact) && (
                    syncs_at(states@[g], v as int) ==> sync) && (rings_at(states@[g], v as int)
                        ==> ring),
            decreases end - f,
        {
            let state: &ProgramFrame = &states[f];
            let ghost e = t[k as int];
            assert(is_followed(notes@[t[k as int].1 as int].event, states@, f as int));
            assert(*state == states@[f as int]);
            if !state.digital_state_exact {
                assert(!states@[f as int].digital_state_exact);
                exact = false;
            }
            if state.digital_voices[source].source_msb_edges > 0 {
                if state.digital_voices[v].sync_resets > 0 {
                    assert(syncs_at(states@[f as int], v as int));
                    sync = true;
                }
                if (state.voices[v].waveform / 16) % 2 == 1 {
                    assert(rings_at(states@[f as int], v as int));
                    ring = true;
                }
            }
            f += 1;
        }
        k += 1;
    }
    HardwareEvidence { exact, sync_active: sync, ring_active: ring }
}

/// The frequency of a silent voice that modulates all of a track's notes: that
/// of each note that has one, if they agree and there is one at all.
pub open spec fn static_source(silent: Seq<Option<u16>>) -> Option<u16> {
    if exists|f: u16| agrees(silent, f) {
        Some(choose|f: u16| agrees(silent, f))
    } else {
        None
    }
}

/// Whether a frequency is the only one of a list.
pub open spec fn agrees(silent: Seq<Option<u16>>, f: u16) -> bool {
    silent.contains(Some(f)) && forall|k: int|
        0 <= k < silent.len() && (#[trigger] silent[k]) is Some ==> silent[k] == Some(f)
}

/// Finds the frequency of a silent voice that modulates all of a track's notes.
pub fn find_static_source(silent: &[Option<u16>]) -> (r: Option<u16>)
    ensures
        r == static_source(silent@),
{
    let mut found: Option<u16> = None;
    let mut k: usize = 0;
    while k < silent.len()
        invariant
            k <= silent@.len(),
            found matches Some(f) ==> silent@.contains(Some(f)),
            forall|j: int| 0 <= j < k && (#[trigger] silent@[j]) is Some ==> silent@[j] == found,
        decreases silent@.len() - k,
    {
        if silent[k].is_some() {
            if found.is_some() && found != silent[k] {
                assert forall|f: u16| !agrees(silent@, f) by {
                    if agrees(silent@, f) {
                        assert(silent@[k as int] == Some(f));
                        let j = choose|j: int| 0 <= j < silent@.len() && silent@[j] == found;
                        assert(silent@[j] is Some);
                    }
                }
                return None;
            }
            found = silent[k];
            assert(silent@[k as int] == found);
        }
        k += 1;
    }
    proof {
        match found {
            Some(f) => {
                assert(agrees(silent@, f));
                let g = choose|g: u16| agrees(silent@, g);
                assert(agrees(silent@, g));
                let j = choose|j: int| 0 <= j < silent@.len() && silent@[j] == Some(f);
                assert(silent@[j] == Some(g));
            },
            None => {
                assert forall|f: u16| !agrees(silent@, f) by {
                    if silent@.contains(Some(f)) {
                        let j = choose|j: int| 0 <= j < silent@.len() && silent@[j] == Some(f);
                        assert(silent@[j] is Some);
                    }
                }
            },
        }
    }
    found
}

/// An oscillator as it was measured: started with a known state of the noise, and
/// without the coupling that had no effect.
pub open spec fn measured_oscillator(
    id: ModuleId,
    o: OscillatorView,
    seed: Option<u32>,
    evidence: HardwareEvidence,
    source: Option<u16>,
) -> OscillatorView {
    if id == ModuleId::Sid1 {
        OscillatorView {
            noise_seed: match seed {
                Some(s) => s,
                None => o.noise_seed,
            },
            hard_sync: o.hard_sync && (!evidence.exact || evidence.sync_active),
            ring_mod: o.ring_mod && (!evidence.exact || evidence.ring_active),
            ..o
        }
    } else if id == ModuleId::Sid2 && evidence.exact && source is Some {
        OscillatorView { freq_reg: source->0, track_pitch: false, ..o }
    } else {
        o
    }
}

/// A module as it was measured.
pub open spec fn measured_module(
    m: ModuleView,
    seed: Option<u32>,
    evidence: HardwareEvidence,
    source: Option<u16>,
) -> ModuleView {
    match m.parameters {
        ParametersView::SidOscillator(o) => ModuleView {
            parameters: ParametersView::SidOscillator(
                measured_oscillator(m.id, o, seed, evidence, source),
            ),
            ..m
        },
        _ => m,
    }
}

/// An instrument as it was measured.
pub open spec fn as_measured(
    i: InstrumentView,
    seed: Option<u32>,
    evidence: HardwareEvidence,
    source: Option<u16>,
) -> InstrumentView {
    InstrumentView {
        modules: Seq::new(
            i.modules.len(),
            |k: int| measured_module(i.modules[k], seed, evidence, source),
        ),
        ..i
    }
}

/// Sets an instrument's oscillators to what was measured.
pub fn enforce_measured_oscillators(
    instrument: &mut Instrument,
    seed: Option<u32>,
    evidence: HardwareEvidence,
    source: Option<u16>,
)
    ensures
        final(instrument).view() == as_measured(old(instrument).view(), seed, evidence, source),
{
    let ghost before = instrument.view();
    let ghost wanted = as_measured(before, seed, evidence, source);
    let count: usize = instrument.modules.len();
    let mut rest: Vec<Module> = Vec::new();
    std::mem::swap(&mut instrument.modules, &mut rest);
    let mut out: Vec<Module> = Vec::new();
    let mut k: usize = 0;
    while k < count
        invariant
            k <= count,
            count == before.modules.len(),
            wanted == as_measured(before, seed, evidence, source),
            rest@.len() == count - k,
            forall|x: int|
                0 <= x < rest@.len() ==> (#[trigger] rest@[x]).view() == before.modules[k + x],
            out@.len() == k,
            forall|x: int| 0 <= x < k ==> (#[trigger] out@[x]).view() == wanted.modules[x],
        decreases count - k,
    {
        let ghost left = rest@;
        let m: Module = rest.remove(0);
        proof {
            assert(m.view() == before.modules[k + 0]);
            assert forall|x: int| 0 <= x < rest@.len() implies (#[trigger] rest@[x]).view()
                == before.modules[k + 1 + x] by {
                assert(rest@[x] == left[x + 1]);
            }
        }
        let Module { id, x, y, parameters } = m;
        let changed: Parameters = match parameters {
            Parameters::SidOscillator(o) => {
                let mut p = o;
                if id == ModuleId::Sid1 {
                    if let Some(s) = seed {
                        p.noise_seed = s;
                    }
                    p.hard_sync = p.hard_sync && (!evidence.exact || evidence.sync_active);
                    p.ring_mod = p.ring_mod && (!evidence.exact || evidence.ring_active);
                }
                if id == ModuleId::Sid2 && evidence.exact {
                    if let Some(f) = source {
                        p.freq_reg = f;
                        p.track_pitch = false;
                    }
                }
                Parameters::SidOscillator(p)
            },
            other => other,
        };
        let n: Module = Module { id, x, y, parameters: changed };
        assert(n.view() == wanted.modules[k as int]);
        out.push(n);
        k += 1;
    }
    instrument.modules = out;
    assert(instrument.view() =~= wanted);
}

/// Whether a module belongs to an instrument's own filter.
pub open spec fn of_filter(id: ModuleId) -> bool {
    id == ModuleId::Flt1 || id == ModuleId::Mix1
}

/// The modules of a list that do not belong to the filter.
pub open spec fn other_modules(modules: Seq<ModuleView>) -> Seq<ModuleView>
    decreases modules.len(),
{
    if modules.len() == 0 {
        Seq::empty()
    } else if of_filter(modules.last().id) {
        other_modules(modules.drop_last())
    } else {
        other_modules(modules.drop_last()).push(modules.last())
    }
}

/// The connections of a list that do not touch the filter.
pub open spec fn other_connections(connections: Seq<Connection>) -> Seq<Connection>
    decreases connections.len(),
{
    if connections.len() == 0 {
        Seq::empty()
    } else if of_filter(connections.last().from) || of_filter(connections.last().to) {
        other_connections(connections.drop_last())
    } else {
        other_connections(connections.drop_last()).push(connections.last())
    }
}

/// An instrument without its own filter: its source reaches the amplifier
/// directly.
pub open spec fn without_filter(i: InstrumentView) -> InstrumentView {
    if has_module(i.modules, ModuleId::Flt1) {
        let kept = other_connections(i.connections);
        let direct = wire(ModuleId::Sid1, Port::Out, ModuleId::Amp1, Port::In);
        InstrumentView {
            modules: other_modules(i.modules),
            connections: if kept.contains(direct) {
                kept
            } else {
                kept.push(direct)
            },
            ..i
        }
    } else {
        i
    }
}

fn find_module(modules: &[Module], id: ModuleId) -> (r: bool)
    ensures
        r == has_module(module_views(modules@), id),
{
    let mut k: usize = 0;
    while k < modules.len()
        invariant
            k <= modules@.len(),
            forall|j: int| 0 <= j < k ==> (#[trigger] module_views(modules@)[j]).id != id,
        decreases modules@.len() - k,
    {
        assert(module_views(modules@)[k as int] == modules@[k as int].view());
        if modules[k].id == id {
            return true;
        }
        k += 1;
    }
    false
}

/// Takes an instrument's own filter out.
pub fn strip_filter_copy(instrument: &mut Instrument)
    ensures
        final(instrument).view() == without_filter(old(instrument).view()),
{
    let ghost before = instrument.view();
    if !find_module(instrument.modules.as_slice(), ModuleId::Flt1) {
        return;
    }
    let count: usize = instrument.modules.len();
    let mut rest: Vec<Module> = Vec::new();
    std::mem::swap(&mut instrument.modules, &mut rest);
    let mut modules: Vec<Module> = Vec::new();
    let mut k: usize = 0;
    assert(before.modules.take(0) =~= Seq::<ModuleView>::empty());
    assert(module_views(modules@) =~= Seq::<ModuleView>::empty());
    while k < count
        invariant
            k <= count,
            count == before.modules.len(),
            rest@.len() == count - k,
            forall|x: int|
                0 <= x < rest@.len() ==> (#[trigger] rest@[x]).view() == before.modules[k + x],
            module_views(modules@) == other_modules(before.modules.take(k as int)),
        decreases count - k,
    {
        let ghost left = rest@;
        let m: Module = rest.remove(0);
        proof {
            assert(m.view() == before.modules[k + 0]);
            assert forall|x: int| 0 <= x < rest@.len() implies (#[trigger] rest@[x]).view()
                == before.modules[k + 1 + x] by {
                assert(rest@[x] == left[x + 1]);
            }
            assert(before.modules.take(k + 1).drop_last() =~= before.modules.take(k as int));
        }
        if m.id != ModuleId::Flt1 && m.id != ModuleId::Mix1 {
            push_module(&mut modules, m);
        }
        k += 1;
    }
    assert(before.modules.take(count as int) =~= before.modules);
    let ghost all = instrument.connections@;
    let direct: Connection = connect(ModuleId::Sid1, Port::Out, ModuleId::Amp1, Port::In);
    let mut kept: Vec<Connection> = Vec::new();
    let mut found: bool = false;
    let mut c: usize = 0;
    assert(all.take(0) =~= Seq::<Connection>::empty());
    while c < instrument.connections.len()
        invariant
            c <= all.len(),
            all == instrument.connections@,
            direct == wire(ModuleId::Sid1, Port::Out, ModuleId::Amp1, Port::In),
            kept@ == other_connections(all.take(c as int)),
            found == kept@.contains(direct),
        decreases all.len() - c,
    {
        assert(all.take(c + 1).drop_last() =~= all.take(c as int));
        let here: Connection = instrument.connections[c];
        if !(here.from == ModuleId::Flt1 || here.from == ModuleId::Mix1 || here.to
            == ModuleId::Flt1 || here.to == ModuleId::Mix1) {
            let ghost was = kept@;
            kept.push(here);
            proof {
                if was.contains(direct) {
                    let j = choose|j: int| 0 <= j < was.len() && was[j] == direct;
                    assert(kept@[j] == direct);
                }
                assert(kept@[was.len() as int] == here);
                if kept@.contains(direct) && here != direct {
                    let j = choose|j: int| 0 <= j < kept@.len() && kept@[j] == direct;
                    assert(was[j] == direct);
                }
            }
            if here == direct {
                found = true;
            }
        }
        c += 1;
    }
    assert(all.take(all.len() as int) =~= all);
    if !found {
        kept.push(direct);
    }
    instrument.modules = modules;
    instrument.connections = kept;
    assert(instrument.view() =~= without_filter(before));
}

} // verus!
