//! The module graphs of instruments.

pub mod fitting;
pub mod refine;
pub mod select;
pub mod sound;
pub mod wiring;



use crate::analysis::program::SystemClock;
use crate::header::SidModel;
use crate::trace::Adsr;
use super::effects::EffectUnit;
use super::modern::{FilterRecipe, OscillatorRecipe, SecondaryRecipe};
use super::naming::{number_text, push_number};
use super::notes::is_positive;
use super::oscillator::{
    plain_oscillator, with_frequencies, with_sequence, OscillatorView, SidOscillator,
};
use super::timbre::{optional_view, FilterKind, InstrumentRole};
use crate::chars::from_chars;
use crate::numerals::push_text;
use vstd::prelude::*;

verus! {

/// A module of an instrument.
#[derive(Debug, Clone, Copy, PartialEq, Eq, Structural)]
pub enum ModuleId {
    Sid1,
    Sid2,
    Env1,
    Env2,
    Amp1,
    Amp2,
    Flt1,
    Flt2,
    Mix1,
    Out1,
    Scr1,
    Osc1,
    Wtb1,
    Sub1,
    Nse1,
}

impl ModuleId {
    /// The name of the module.
    pub open spec fn label(self) -> Seq<char> {
        match self {
            ModuleId::Sid1 => "sid-1"@,
            ModuleId::Sid2 => "sid-2"@,
            ModuleId::Env1 => "env-1"@,
            ModuleId::Env2 => "env-2"@,
            ModuleId::Amp1 => "amp-1"@,
            ModuleId::Amp2 => "amp-2"@,
            ModuleId::Flt1 => "flt-1"@,
            ModuleId::Flt2 => "flt-2"@,
            ModuleId::Mix1 => "mix-1"@,
            ModuleId::Out1 => "out-1"@,
            ModuleId::Scr1 => "scr-1"@,
            ModuleId::Osc1 => "osc-1"@,
            ModuleId::Wtb1 => "wtb-1"@,
            ModuleId::Sub1 => "sub-1"@,
            ModuleId::Nse1 => "nse-1"@,
        }
    }

    /// The name of the module.
    pub fn name(self) -> (r: &'static str)
        ensures
            r@ == self.label(),
    {
        match self {
            ModuleId::Sid1 => "sid-1",
            ModuleId::Sid2 => "sid-2",
            ModuleId::Env1 => "env-1",
            ModuleId::Env2 => "env-2",
            ModuleId::Amp1 => "amp-1",
            ModuleId::Amp2 => "amp-2",
            ModuleId::Flt1 => "flt-1",
            ModuleId::Flt2 => "flt-2",
            ModuleId::Mix1 => "mix-1",
            ModuleId::Out1 => "out-1",
            ModuleId::Scr1 => "scr-1",
            ModuleId::Osc1 => "osc-1",
            ModuleId::Wtb1 => "wtb-1",
            ModuleId::Sub1 => "sub-1",
            ModuleId::Nse1 => "nse-1",
        }
    }
}

/// A port of a module.
#[derive(Debug, Clone, Copy, PartialEq, Eq, Structural)]
pub enum Port {
    In,
    In1,
    In2,
    Out,
    Out1,
    Cv,
    Ring,
    Sync,
    Pwm,
    Msb,
}

impl Port {
    /// The name of the port.
    pub open spec fn label(self) -> Seq<char> {
        match self {
            Port::In => "in"@,
            Port::In1 => "in1"@,
            Port::In2 => "in2"@,
            Port::Out => "out"@,
            Port::Out1 => "out1"@,
            Port::Cv => "cv"@,
            Port::Ring => "ring"@,
            Port::Sync => "sync"@,
            Port::Pwm => "pwm"@,
            Port::Msb => "msb"@,
        }
    }

    /// The name of the port.
    pub fn name(self) -> (r: &'static str)
        ensures
            r@ == self.label(),
    {
        match self {
            Port::In => "in",
            Port::In1 => "in1",
            Port::In2 => "in2",
            Port::Out => "out",
            Port::Out1 => "out1",
            Port::Cv => "cv",
            Port::Ring => "ring",
            Port::Sync => "sync",
            Port::Pwm => "pwm",
            Port::Msb => "msb",
        }
    }
}

/// A connection from a port to another one.
#[derive(Debug, Clone, Copy, PartialEq, Eq, Structural)]
pub struct Connection {
    pub from: ModuleId,
    pub from_port: Port,
    pub to: ModuleId,
    pub to_port: Port,
}

/// A connection from a port to another one.
pub open spec fn wire(from: ModuleId, from_port: Port, to: ModuleId, to_port: Port) -> Connection {
    Connection { from, from_port, to, to_port }
}

fn connect(from: ModuleId, from_port: Port, to: ModuleId, to_port: Port) -> (r: Connection)
    ensures
        r == wire(from, from_port, to, to_port),
{
    Connection { from, from_port, to, to_port }
}

/// How an envelope is set.
#[derive(Debug, Clone, Copy, PartialEq, Eq, Structural)]
pub enum EnvelopeSetting {
    /// As the chip's envelope.
    Adsr(Adsr),
    /// Open as long as the note is held, whatever its velocity.
    Held,
    /// As the body of a drum.
    DrumBody,
    /// As the click of a drum; a measured decay is in seconds, as a
    /// single-precision bit pattern.
    Click(Option<u32>),
}

/// How a filter is set. Its numbers are single-precision bit patterns: hertz,
/// and parts of one for the resonance and for the dry signal that leaks past it.
#[derive(Debug, Clone, Copy, PartialEq, Eq, Structural)]
pub struct FilterSpec {
    pub cutoff: u32,
    pub resonance: u32,
    pub kind: FilterKind,
    pub leak: u32,
}

/// The noise at the start of a drum: its frequency, and its decay in seconds as a
/// single-precision bit pattern.
#[derive(Debug, Clone, Copy, PartialEq, Eq, Structural)]
pub struct NoiseAccent {
    pub freq_reg: u16,
    pub decay: u32,
}

/// The parameters of a module.
#[derive(Debug)]
pub enum Parameters {
    SidOscillator(SidOscillator),
    Envelope(EnvelopeSetting),
    Amplifier,
    StereoOutput,
    Filter(FilterSpec),
    /// A plain low-pass with a cutoff in hertz.
    OutputFilter(u32),
    /// Filtered and dry signal, the dry one at the given level.
    LeakMixer(u32),
    /// The body and the click of a drum.
    DrumMixer,
    Script(String),
    /// The first layer of a modern sound.
    Oscillator(OscillatorRecipe),
    /// The second layer of a modern sound.
    Secondary(SecondaryRecipe),
    /// The layers of a modern sound.
    LayerMixer,
    /// The filter of a modern sound.
    ModernFilter(FilterRecipe),
}

/// The parameters of a module as plain values.
pub enum ParametersView {
    SidOscillator(OscillatorView),
    Envelope(EnvelopeSetting),
    Amplifier,
    StereoOutput,
    Filter(FilterSpec),
    OutputFilter(u32),
    LeakMixer(u32),
    DrumMixer,
    Script(Seq<char>),
    Oscillator(OscillatorRecipe),
    Secondary(SecondaryRecipe),
    LayerMixer,
    ModernFilter(FilterRecipe),
}

impl Parameters {
    /// The parameters as plain values.
    pub open spec fn view(self) -> ParametersView {
        match self {
            Parameters::SidOscillator(o) => ParametersView::SidOscillator(o.view()),
            Parameters::Envelope(e) => ParametersView::Envelope(e),
            Parameters::Amplifier => ParametersView::Amplifier,
            Parameters::StereoOutput => ParametersView::StereoOutput,
            Parameters::Filter(f) => ParametersView::Filter(f),
            Parameters::OutputFilter(f) => ParametersView::OutputFilter(f),
            Parameters::LeakMixer(l) => ParametersView::LeakMixer(l),
            Parameters::DrumMixer => ParametersView::DrumMixer,
            Parameters::Script(s) => ParametersView::Script(s@),
            Parameters::Oscillator(o) => ParametersView::Oscillator(o),
            Parameters::Secondary(o) => ParametersView::Secondary(o),
            Parameters::LayerMixer => ParametersView::LayerMixer,
            Parameters::ModernFilter(f) => ParametersView::ModernFilter(f),
        }
    }
}

/// A module with its place on the canvas.
#[derive(Debug)]
pub struct Module {
    pub id: ModuleId,
    pub x: u32,
    pub y: u32,
    pub parameters: Parameters,
}

/// A module as plain values.
pub struct ModuleView {
    pub id: ModuleId,
    pub x: u32,
    pub y: u32,
    pub parameters: ParametersView,
}

impl Module {
    /// The module as plain values.
    pub open spec fn view(self) -> ModuleView {
        ModuleView { id: self.id, x: self.x, y: self.y, parameters: self.parameters.view() }
    }
}

/// Modules as plain values.
pub open spec fn module_views(modules: Seq<Module>) -> Seq<ModuleView> {
    Seq::new(modules.len(), |i: int| modules[i].view())
}

/// How an instrument was made from what the chip does.
#[derive(Debug, Clone, Copy, PartialEq, Eq, Structural)]
pub enum Treatment {
    Faithful,
    /// Faithful, with effects of the given amount.
    Enhanced(u8),
    Modern,
}

impl Treatment {
    /// The description of an instrument.
    pub open spec fn words(self) -> Seq<char> {
        match self {
            Treatment::Faithful => "sid-analyzer v0 export."@,
            Treatment::Enhanced(level) => "sid-analyzer faithful export with enhancement level "@
                + number_text(level as nat) + "."@,
            Treatment::Modern =>
                "Modern Analog profile: role-aware layered synthesis from analyzed SID music data."@,
        }
    }

    /// The description of an instrument.
    pub fn description(self) -> (r: String)
        ensures
            r@ == self.words(),
    {
        let mut out: Vec<char> = Vec::new();
        match self {
            Treatment::Faithful => {
                push_text(&mut out, "sid-analyzer v0 export.");
            },
            Treatment::Enhanced(level) => {
                push_text(&mut out, "sid-analyzer faithful export with enhancement level ");
                push_number(&mut out, level as u64);
                push_text(&mut out, ".");
            },
            Treatment::Modern => {
                push_text(
                    &mut out,
                    "Modern Analog profile: role-aware layered synthesis from analyzed SID music data.",
                );
            },
        }
        assert(out@ =~= self.words());
        from_chars(out.as_slice())
    }
}

/// An instrument: its module graph, what it is in the music, and its detuning in
/// cents as a single-precision bit pattern.
#[derive(Debug)]
pub struct Instrument {
    pub id: u32,
    pub name: String,
    pub role: InstrumentRole,
    pub detune: u32,
    /// Whether the velocity of a note sets its level.
    pub velocity_sensitive: bool,
    pub modules: Vec<Module>,
    pub connections: Vec<Connection>,
    /// The effects behind the output, in their order.
    pub effects: Vec<EffectUnit>,
    pub treatment: Treatment,
}

/// An instrument as plain values.
#[verifier::ext_equal]
pub struct InstrumentView {
    pub id: u32,
    pub name: Seq<char>,
    pub role: InstrumentRole,
    pub detune: u32,
    pub velocity_sensitive: bool,
    pub modules: Seq<ModuleView>,
    pub connections: Seq<Connection>,
    pub effects: Seq<EffectUnit>,
    pub treatment: Treatment,
}

impl Instrument {
    /// The instrument as plain values.
    pub open spec fn view(self) -> InstrumentView {
        InstrumentView {
            id: self.id,
            name: self.name@,
            role: self.role,
            detune: self.detune,
            velocity_sensitive: self.velocity_sensitive,
            modules: module_views(self.modules@),
            connections: self.connections@,
            effects: self.effects@,
            treatment: self.treatment,
        }
    }
}

/// What an instrument's oscillator plays.
#[derive(Debug)]
pub struct SidSource {
    pub mask: u8,
    pub pw_reg: u16,
    pub seq: Option<Vec<u8>>,
    pub seq_frequencies: Vec<u16>,
    /// Whether the sequence plays once and holds its last step.
    pub seq_hold: bool,
    pub ring_mod: bool,
    pub hard_sync: bool,
    pub model: SidModel,
    pub clock: SystemClock,
}

/// What an instrument's oscillator plays, as plain values.
pub struct SourceView {
    pub mask: u8,
    pub pw_reg: u16,
    pub seq: Option<Seq<u8>>,
    pub seq_frequencies: Seq<u16>,
    pub seq_hold: bool,
    pub ring_mod: bool,
    pub hard_sync: bool,
    pub model: SidModel,
    pub clock: SystemClock,
}

impl SidSource {
    /// The source as plain values.
    pub open spec fn view(self) -> SourceView {
        SourceView {
            mask: self.mask,
            pw_reg: self.pw_reg,
            seq: optional_view(self.seq),
            seq_frequencies: self.seq_frequencies@,
            seq_hold: self.seq_hold,
            ring_mod: self.ring_mod,
            hard_sync: self.hard_sync,
            model: self.model,
            clock: self.clock,
        }
    }

    /// A source that plays one selection of waveforms.
    pub fn simple(mask: u8, pw_reg: u16, model: SidModel, clock: SystemClock) -> (r: SidSource)
        ensures
            r.view() == simple_source(mask, pw_reg, model, clock),
    {
        SidSource {
            mask,
            pw_reg,
            seq: None,
            seq_frequencies: super::oscillator::zero_frequencies(),
            seq_hold: false,
            ring_mod: false,
            hard_sync: false,
            model,
            clock,
        }
    }

    /// The word for what the source mostly plays.
    pub fn waveform_label(&self) -> (r: &'static str)
        ensures
            r@ == mask_label(self.mask),
    {
        if (self.mask / 4) % 2 == 1 {
            "pulse"
        } else if (self.mask / 2) % 2 == 1 {
            "sawtooth"
        } else if self.mask % 2 == 1 {
            "triangle"
        } else if (self.mask / 8) % 2 == 1 {
            "noise"
        } else {
            "pulse"
        }
    }
}

/// The word for what a selection of waveforms mostly plays.
pub open spec fn mask_label(mask: u8) -> Seq<char> {
    if (mask / 4) % 2 == 1 {
        "pulse"@
    } else if (mask / 2) % 2 == 1 {
        "sawtooth"@
    } else if mask % 2 == 1 {
        "triangle"@
    } else if (mask / 8) % 2 == 1 {
        "noise"@
    } else {
        "pulse"@
    }
}

/// A source that plays one selection of waveforms.
pub open spec fn simple_source(
    mask: u8,
    pw_reg: u16,
    model: SidModel,
    clock: SystemClock,
) -> SourceView {
    SourceView {
        mask,
        pw_reg,
        seq: None,
        seq_frequencies: Seq::new(16, |i: int| 0u16),
        seq_hold: false,
        ring_mod: false,
        hard_sync: false,
        model,
        clock,
    }
}

/// The oscillator of a source.
pub open spec fn source_oscillator(s: SourceView) -> OscillatorView {
    let tuned = OscillatorView {
        ring_mod: s.ring_mod,
        hard_sync: s.hard_sync,
        ..plain_oscillator(s.mask, s.pw_reg, s.model, s.clock)
    };
    match s.seq {
        Some(steps) => {
            let programmed = with_frequencies(with_sequence(tuned, steps), s.seq_frequencies);
            OscillatorView { seq_loop: !s.seq_hold, ..programmed }
        },
        None => tuned,
    }
}

fn make_oscillator(s: &SidSource) -> (r: SidOscillator)
    requires
        s.seq_frequencies@.len() == 16,
    ensures
        r.view() == source_oscillator(s.view()),
{
    let mut o: SidOscillator = SidOscillator::tonal(s.mask, s.pw_reg, s.model, s.clock);
    o.ring_mod = s.ring_mod;
    o.hard_sync = s.hard_sync;
    if let Some(steps) = &s.seq {
        o.set_seq(steps.as_slice());
        o.set_seq_frequencies(s.seq_frequencies.as_slice());
        o.seq_loop = !s.seq_hold;
    }
    o
}

/// A module.
pub open spec fn module_at(id: ModuleId, x: u32, y: u32, parameters: ParametersView) -> ModuleView {
    ModuleView { id, x, y, parameters }
}

fn module(id: ModuleId, x: u32, y: u32, parameters: Parameters) -> (r: Module)
    ensures
        r.view() == module_at(id, x, y, parameters.view()),
{
    Module { id, x, y, parameters }
}

/// An oscillator that plays at a fixed frequency.
pub open spec fn fixed_oscillator(
    mask: u8,
    freq_reg: u16,
    model: SidModel,
    clock: SystemClock,
) -> OscillatorView {
    OscillatorView {
        track_pitch: false,
        freq_reg,
        ..plain_oscillator(mask, 2048, model, clock)
    }
}

fn make_fixed(mask: u8, freq_reg: u16, model: SidModel, clock: SystemClock) -> (r: SidOscillator)
    ensures
        r.view() == fixed_oscillator(mask, freq_reg, model, clock),
{
    let mut o: SidOscillator = SidOscillator::tonal(mask, 2048, model, clock);
    o.track_pitch = false;
    o.freq_reg = freq_reg;
    o
}

/// The frequency of the voice that rings or syncs a source, if one does.
pub open spec fn used_neighbour(s: SourceView, neighbour: Option<u16>) -> Option<u16> {
    if s.ring_mod || s.hard_sync {
        neighbour
    } else {
        None
    }
}

/// The modules of an instrument with one source.
pub open spec fn built_modules(
    s: SourceView,
    envelope: EnvelopeSetting,
    filter: Option<FilterSpec>,
    neighbour: Option<u16>,
    script: Option<Seq<char>>,
) -> Seq<ModuleView> {
    let plain = seq![
        module_at(
            ModuleId::Sid1,
            32,
            32,
            ParametersView::SidOscillator(source_oscillator(s)),
        ),
        module_at(ModuleId::Env1, 32, 384, ParametersView::Envelope(envelope)),
        module_at(ModuleId::Amp1, 448, 32, ParametersView::Amplifier),
        module_at(ModuleId::Out1, 800, 32, ParametersView::StereoOutput),
    ];
    let coupled = match used_neighbour(s, neighbour) {
        Some(f) => plain.push(
            module_at(
                ModuleId::Sid2,
                32,
                200,
                ParametersView::SidOscillator(fixed_oscillator(2, f, s.model, s.clock)),
            ),
        ),
        None => plain,
    };
    let filtered = match filter {
        Some(f) => {
            let one = coupled.push(module_at(ModuleId::Flt1, 240, 32, ParametersView::Filter(f)));
            if is_positive(f.leak) {
                one.push(module_at(ModuleId::Mix1, 352, 32, ParametersView::LeakMixer(f.leak)))
            } else {
                one
            }
        },
        None => coupled,
    };
    match script {
        Some(text) => filtered.push(
            module_at(ModuleId::Scr1, 32, 560, ParametersView::Script(text)),
        ),
        None => filtered,
    }
}

/// The path from a source to its amplifier.
pub open spec fn source_path(filter: Option<FilterSpec>) -> Seq<Connection> {
    match filter {
        Some(f) => if is_positive(f.leak) {
            seq![
                wire(ModuleId::Sid1, Port::Out, ModuleId::Flt1, Port::In),
                wire(ModuleId::Flt1, Port::Out, ModuleId::Mix1, Port::In1),
                wire(ModuleId::Sid1, Port::Out, ModuleId::Mix1, Port::In2),
                wire(ModuleId::Mix1, Port::Out, ModuleId::Amp1, Port::In),
            ]
        } else {
            seq![
                wire(ModuleId::Sid1, Port::Out, ModuleId::Flt1, Port::In),
                wire(ModuleId::Flt1, Port::Out, ModuleId::Amp1, Port::In),
            ]
        },
        None => seq![wire(ModuleId::Sid1, Port::Out, ModuleId::Amp1, Port::In)],
    }
}

/// The connections of an instrument with one source.
pub open spec fn built_connections(
    s: SourceView,
    filter: Option<FilterSpec>,
    neighbour: Option<u16>,
    scripted: bool,
) -> Seq<Connection> {
    let played = source_path(filter).push(
        wire(ModuleId::Env1, Port::Out, ModuleId::Amp1, Port::Cv),
    ).push(wire(ModuleId::Amp1, Port::Out, ModuleId::Out1, Port::In));
    let used = used_neighbour(s, neighbour) is Some;
    let ringing = if used && s.ring_mod {
        played.push(wire(ModuleId::Sid2, Port::Msb, ModuleId::Sid1, Port::Ring))
    } else {
        played
    };
    let synced = if used && s.hard_sync {
        ringing.push(wire(ModuleId::Sid2, Port::Msb, ModuleId::Sid1, Port::Sync))
    } else {
        ringing
    };
    if scripted {
        synced.push(wire(ModuleId::Scr1, Port::Out1, ModuleId::Sid1, Port::Pwm))
    } else {
        synced
    }
}

/// Whether a single-precision bit pattern is that of a number above zero.
pub fn bits_are_positive(bits: u32) -> (r: bool)
    ensures
        r == is_positive(bits),
{
    0 < bits && bits <= 0x7F80_0000
}

impl Instrument {
    /// Puts an instrument together from a module graph.
    pub fn assemble(
        id: u32,
        name: String,
        role: InstrumentRole,
        modules: Vec<Module>,
        connections: Vec<Connection>,
    ) -> (r: Instrument)
        ensures
            r.view() == (InstrumentView {
                id,
                name: name@,
                role,
                detune: 0,
                velocity_sensitive: true,
                effects: Seq::empty(),
                treatment: Treatment::Faithful,
                modules: module_views(modules@),
                connections: connections@,
            }),
    {
        Instrument {
            id,
            name,
            role,
            detune: 0,
            velocity_sensitive: true,
            modules,
            connections,
            effects: Vec::new(),
            treatment: Treatment::Faithful,
        }
    }

    /// Builds an instrument with one source: the source, an optional filter with
    /// its leak, an amplifier that the envelope opens, and the output.
    pub fn build(
        id: u32,
        name: String,
        role: InstrumentRole,
        source: SidSource,
        envelope: EnvelopeSetting,
        filter: Option<FilterSpec>,
        neighbour: Option<u16>,
        detune: u32,
        script: Option<String>,
    ) -> (r: Instrument)
        requires
            source.seq_frequencies@.len() == 16,
        ensures
            r.view() == (InstrumentView {
                id,
                name: name@,
                role,
                detune,
                velocity_sensitive: true,
                effects: Seq::empty(),
                treatment: Treatment::Faithful,
                modules: built_modules(
                    source.view(),
                    envelope,
                    filter,
                    neighbour,
                    text_view(script),
                ),
                connections: built_connections(
                    source.view(),
                    filter,
                    neighbour,
                    script is Some,
                ),
            }),
    {
        let ghost s = source.view();
        let ghost text = text_view(script);
        let scripted: bool = script.is_some();
        let used: Option<u16> = if source.ring_mod || source.hard_sync {
            neighbour
        } else {
            None
        };
        let modules: Vec<Module> = build_modules(&source, envelope, filter, used, script);
        let connections: Vec<Connection> = build_connections(
            source.ring_mod && used.is_some(),
            source.hard_sync && used.is_some(),
            filter,
            scripted,
        );
        assert(connections@ =~= built_connections(s, filter, neighbour, scripted));
        let mut instrument: Instrument = Instrument::assemble(
            id,
            name,
            role,
            modules,
            connections,
        );
        instrument.detune = detune;
        instrument
    }
}

/// The characters of an optional text.
pub open spec fn text_view(s: Option<String>) -> Option<Seq<char>> {
    match s {
        Some(t) => Some(t@),
        None => None,
    }
}

fn push_module(modules: &mut Vec<Module>, m: Module)
    ensures
        module_views(final(modules)@) == module_views(old(modules)@).push(m.view()),
{
    let ghost before = modules@;
    let ghost added = m.view();
    modules.push(m);
    assert(module_views(modules@) =~= module_views(before).push(added));
}

fn build_modules(
    source: &SidSource,
    envelope: EnvelopeSetting,
    filter: Option<FilterSpec>,
    used: Option<u16>,
    script: Option<String>,
) -> (r: Vec<Module>)
    requires
        source.seq_frequencies@.len() == 16,
        used is Some ==> source.ring_mod || source.hard_sync,
    ensures
        forall|neighbour: Option<u16>|
            used_neighbour(source.view(), neighbour) == used ==> module_views(r@)
                == #[trigger] built_modules(
                source.view(),
                envelope,
                filter,
                neighbour,
                text_view(script),
            ),
{
    let mut modules: Vec<Module> = Vec::new();
    assert(module_views(modules@) =~= Seq::<ModuleView>::empty());
    push_module(
        &mut modules,
        module(ModuleId::Sid1, 32, 32, Parameters::SidOscillator(make_oscillator(source))),
    );
    push_module(&mut modules, module(ModuleId::Env1, 32, 384, Parameters::Envelope(envelope)));
    push_module(&mut modules, module(ModuleId::Amp1, 448, 32, Parameters::Amplifier));
    push_module(&mut modules, module(ModuleId::Out1, 800, 32, Parameters::StereoOutput));
    assert(module_views(modules@) =~= seq![
        module_at(
            ModuleId::Sid1,
            32,
            32,
            ParametersView::SidOscillator(source_oscillator(source.view())),
        ),
        module_at(ModuleId::Env1, 32, 384, ParametersView::Envelope(envelope)),
        module_at(ModuleId::Amp1, 448, 32, ParametersView::Amplifier),
        module_at(ModuleId::Out1, 800, 32, ParametersView::StereoOutput),
    ]);
    if let Some(f) = used {
        push_module(
            &mut modules,
            module(
                ModuleId::Sid2,
                32,
                200,
                Parameters::SidOscillator(make_fixed(2, f, source.model, source.clock)),
            ),
        );
    }
    if let Some(f) = filter {
        push_module(&mut modules, module(ModuleId::Flt1, 240, 32, Parameters::Filter(f)));
        if bits_are_positive(f.leak) {
            push_module(
                &mut modules,
                module(ModuleId::Mix1, 352, 32, Parameters::LeakMixer(f.leak)),
            );
        }
    }
    if let Some(text) = script {
        push_module(&mut modules, module(ModuleId::Scr1, 32, 560, Parameters::Script(text)));
    }
    modules
}

fn build_connections(ring: bool, sync: bool, filter: Option<FilterSpec>, scripted: bool) -> (r: Vec<
    Connection,
>)
    ensures
        ({
            let played = source_path(filter).push(
                wire(ModuleId::Env1, Port::Out, ModuleId::Amp1, Port::Cv),
            ).push(wire(ModuleId::Amp1, Port::Out, ModuleId::Out1, Port::In));
            let ringing = if ring {
                played.push(wire(ModuleId::Sid2, Port::Msb, ModuleId::Sid1, Port::Ring))
            } else {
                played
            };
            let synced = if sync {
                ringing.push(wire(ModuleId::Sid2, Port::Msb, ModuleId::Sid1, Port::Sync))
            } else {
                ringing
            };
            r@ == (if scripted {
                synced.push(wire(ModuleId::Scr1, Port::Out1, ModuleId::Sid1, Port::Pwm))
            } else {
                synced
            })
        }),
{
    let mut c: Vec<Connection> = Vec::new();
    match filter {
        Some(f) => {
            c.push(connect(ModuleId::Sid1, Port::Out, ModuleId::Flt1, Port::In));
            if bits_are_positive(f.leak) {
                c.push(connect(ModuleId::Flt1, Port::Out, ModuleId::Mix1, Port::In1));
                c.push(connect(ModuleId::Sid1, Port::Out, ModuleId::Mix1, Port::In2));
                c.push(connect(ModuleId::Mix1, Port::Out, ModuleId::Amp1, Port::In));
            } else {
                c.push(connect(ModuleId::Flt1, Port::Out, ModuleId::Amp1, Port::In));
            }
        },
        None => {
            c.push(connect(ModuleId::Sid1, Port::Out, ModuleId::Amp1, Port::In));
        },
    }
    assert(c@ =~= source_path(filter));
    c.push(connect(ModuleId::Env1, Port::Out, ModuleId::Amp1, Port::Cv));
    c.push(connect(ModuleId::Amp1, Port::Out, ModuleId::Out1, Port::In));
    if ring {
        c.push(connect(ModuleId::Sid2, Port::Msb, ModuleId::Sid1, Port::Ring));
    }
    if sync {
        c.push(connect(ModuleId::Sid2, Port::Msb, ModuleId::Sid1, Port::Sync));
    }
    if scripted {
        c.push(connect(ModuleId::Scr1, Port::Out1, ModuleId::Sid1, Port::Pwm));
    }
    c
}

/// The oscillator of a drum's click: at a measured frequency, or else at the
/// pitch of the note.
pub open spec fn click_oscillator(
    noise: Option<NoiseAccent>,
    model: SidModel,
    clock: SystemClock,
) -> OscillatorView {
    match noise {
        Some(a) => fixed_oscillator(8, a.freq_reg, model, clock),
        None => plain_oscillator(8, 2048, model, clock),
    }
}

/// The decay of a drum's click.
pub open spec fn click_setting(noise: Option<NoiseAccent>) -> EnvelopeSetting {
    EnvelopeSetting::Click(
        match noise {
            Some(a) => Some(a.decay),
            None => None,
        },
    )
}

/// The modules of a drum: a pulse for its body and noise for its click.
pub open spec fn percussion_modules(
    body: EnvelopeSetting,
    noise: Option<NoiseAccent>,
    model: SidModel,
    clock: SystemClock,
) -> Seq<ModuleView> {
    seq![
        module_at(
            ModuleId::Sid1,
            32,
            32,
            ParametersView::SidOscillator(plain_oscillator(4, 2048, model, clock)),
        ),
        module_at(ModuleId::Env1, 32, 384, ParametersView::Envelope(body)),
        module_at(ModuleId::Amp1, 240, 32, ParametersView::Amplifier),
        module_at(
            ModuleId::Sid2,
            32,
            200,
            ParametersView::SidOscillator(click_oscillator(noise, model, clock)),
        ),
        module_at(ModuleId::Env2, 32, 520, ParametersView::Envelope(click_setting(noise))),
        module_at(ModuleId::Amp2, 240, 200, ParametersView::Amplifier),
        module_at(ModuleId::Mix1, 448, 32, ParametersView::DrumMixer),
        module_at(ModuleId::Out1, 800, 32, ParametersView::StereoOutput),
    ]
}

/// The connections of a drum.
pub open spec fn percussion_connections() -> Seq<Connection> {
    seq![
        wire(ModuleId::Sid1, Port::Out, ModuleId::Amp1, Port::In),
        wire(ModuleId::Env1, Port::Out, ModuleId::Amp1, Port::Cv),
        wire(ModuleId::Sid2, Port::Out, ModuleId::Amp2, Port::In),
        wire(ModuleId::Env2, Port::Out, ModuleId::Amp2, Port::Cv),
        wire(ModuleId::Amp1, Port::Out, ModuleId::Mix1, Port::In1),
        wire(ModuleId::Amp2, Port::Out, ModuleId::Mix1, Port::In2),
        wire(ModuleId::Mix1, Port::Out, ModuleId::Out1, Port::In),
    ]
}

/// Builds a drum: a pulse for its body and noise for its click, each with an
/// envelope of its own.
pub fn sid_percussion_instrument(
    id: u32,
    name: String,
    role: InstrumentRole,
    body: EnvelopeSetting,
    noise: Option<NoiseAccent>,
    model: SidModel,
    clock: SystemClock,
) -> (r: Instrument)
    ensures
        r.view() == (InstrumentView {
            id,
            name: name@,
            role,
            detune: 0,
            velocity_sensitive: true,
            effects: Seq::empty(),
            treatment: Treatment::Faithful,
            modules: percussion_modules(body, noise, model, clock),
            connections: percussion_connections(),
        }),
{
    let click: SidOscillator = match noise {
        Some(a) => make_fixed(8, a.freq_reg, model, clock),
        None => SidOscillator::tonal(8, 2048, model, clock),
    };
    let decay: Option<u32> = match noise {
        Some(a) => Some(a.decay),
        None => None,
    };
    let mut m: Vec<Module> = Vec::new();
    m.push(
        module(
            ModuleId::Sid1,
            32,
            32,
            Parameters::SidOscillator(SidOscillator::tonal(4, 2048, model, clock)),
        ),
    );
    m.push(module(ModuleId::Env1, 32, 384, Parameters::Envelope(body)));
    m.push(module(ModuleId::Amp1, 240, 32, Parameters::Amplifier));
    m.push(module(ModuleId::Sid2, 32, 200, Parameters::SidOscillator(click)));
    m.push(
        module(ModuleId::Env2, 32, 520, Parameters::Envelope(EnvelopeSetting::Click(decay))),
    );
    m.push(module(ModuleId::Amp2, 240, 200, Parameters::Amplifier));
    m.push(module(ModuleId::Mix1, 448, 32, Parameters::DrumMixer));
    m.push(module(ModuleId::Out1, 800, 32, Parameters::StereoOutput));
    assert(module_views(m@) =~= percussion_modules(body, noise, model, clock));
    let mut c: Vec<Connection> = Vec::new();
    c.push(connect(ModuleId::Sid1, Port::Out, ModuleId::Amp1, Port::In));
    c.push(connect(ModuleId::Env1, Port::Out, ModuleId::Amp1, Port::Cv));
    c.push(connect(ModuleId::Sid2, Port::Out, ModuleId::Amp2, Port::In));
    c.push(connect(ModuleId::Env2, Port::Out, ModuleId::Amp2, Port::Cv));
    c.push(connect(ModuleId::Amp1, Port::Out, ModuleId::Mix1, Port::In1));
    c.push(connect(ModuleId::Amp2, Port::Out, ModuleId::Mix1, Port::In2));
    c.push(connect(ModuleId::Mix1, Port::Out, ModuleId::Out1, Port::In));
    assert(c@ =~= percussion_connections());
    Instrument::assemble(id, name, role, m, c)
}

/// Whether a module is part of a graph.
pub open spec fn has_module(modules: Seq<ModuleView>, id: ModuleId) -> bool {
    exists|i: int| 0 <= i < modules.len() && (#[trigger] modules[i]).id == id
}

/// Whether a graph is wired: no module occurs twice, connections join modules
/// that are part of it, and something reaches the output.
pub open spec fn is_wired(modules: Seq<ModuleView>, connections: Seq<Connection>) -> bool {
    &&& forall|i: int, j: int|
        0 <= i < j < modules.len() ==> (#[trigger] modules[i]).id != (#[trigger] modules[j]).id
    &&& forall|k: int|
        0 <= k < connections.len() ==> has_module(modules, (#[trigger] connections[k]).from)
            && has_module(modules, connections[k].to)
    &&& exists|k: int|
        0 <= k < connections.len() && (#[trigger] connections[k]).to == ModuleId::Out1
            && connections[k].to_port == Port::In
}

/// Every instrument with one source is wired.
pub proof fn built_instruments_are_wired(
    s: SourceView,
    envelope: EnvelopeSetting,
    filter: Option<FilterSpec>,
    neighbour: Option<u16>,
    script: Option<Seq<char>>,
)
    ensures
        is_wired(
            built_modules(s, envelope, filter, neighbour, script),
            built_connections(s, filter, neighbour, script is Some),
        ),
{
    let m = built_modules(s, envelope, filter, neighbour, script);
    let c = built_connections(s, filter, neighbour, script is Some);
    let used = used_neighbour(s, neighbour) is Some;
    assert(m[0].id == ModuleId::Sid1);
    assert(m[1].id == ModuleId::Env1);
    assert(m[2].id == ModuleId::Amp1);
    assert(m[3].id == ModuleId::Out1);
    let a: int = if used {
        5
    } else {
        4
    };
    if used {
        assert(m[4].id == ModuleId::Sid2);
    }
    if filter is Some {
        assert(m[a].id == ModuleId::Flt1);
        if is_positive(filter->0.leak) {
            assert(m[a + 1].id == ModuleId::Mix1);
        }
    }
    if script is Some {
        assert(m[m.len() - 1].id == ModuleId::Scr1);
    }
    let p = source_path(filter).len() as int;
    assert(c[p + 1] == wire(ModuleId::Amp1, Port::Out, ModuleId::Out1, Port::In));
}

/// Every drum is wired.
pub proof fn drums_are_wired(
    body: EnvelopeSetting,
    noise: Option<NoiseAccent>,
    model: SidModel,
    clock: SystemClock,
)
    ensures
        is_wired(percussion_modules(body, noise, model, clock), percussion_connections()),
{
    let m = percussion_modules(body, noise, model, clock);
    let c = percussion_connections();
    assert(m[0].id == ModuleId::Sid1);
    assert(m[1].id == ModuleId::Env1);
    assert(m[2].id == ModuleId::Amp1);
    assert(m[3].id == ModuleId::Sid2);
    assert(m[4].id == ModuleId::Env2);
    assert(m[5].id == ModuleId::Amp2);
    assert(m[6].id == ModuleId::Mix1);
    assert(m[7].id == ModuleId::Out1);
    assert(c[6].to == ModuleId::Out1);
}

} // verus!
