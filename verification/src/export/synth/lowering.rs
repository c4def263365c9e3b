//! Choosing how each part of a tune's sound is represented in the target.

pub mod agreement;
pub mod candidates;
pub mod choice;
pub mod drafting;
pub mod evidence;
pub mod weighing;

use crate::analysis::program::{
    AnalyzedSidProgram, ContinuousOccurrenceId, ProgramDefinitionId, ProgramOccurrenceId,
    ProgramReuseGroupId, SignalInterpretationId, SoundRegionId, VoiceId,
};
use crate::chars::{from_chars, to_chars};
use crate::numerals::{push_slice, push_text};
use candidates::{
    automation_drafts, build_candidates, loss_rank, needed_domains, program_drafts, realize_all,
    required_domains, requirement_views, size_at, only_if, RequirementView,
};
use evidence::{
    countable, NoiseStartRecipe, OnsetProgramRecipe, OscillatorStartRecipe,
};
use vstd::prelude::*;

verus! {

/// A part of the sound that has to be represented.
#[derive(Debug, Clone, Copy, PartialEq, Eq, Structural, PartialOrd, Ord)]
#[must_use]
pub enum StateDomain {
    OnsetProgram,
    Pitch,
    Amplitude,
    GateRetrigger,
    Waveform,
    PulseWidth,
    OscillatorContinuation,
    NoiseContinuation,
    Filter,
    Routing,
    CrossVoice,
    Digi,
}

/// How many domains there are.
pub const DOMAIN_COUNT: usize = 12;

impl StateDomain {
    /// The place of the domain in their order.
    pub open spec fn rank(self) -> int {
        match self {
            StateDomain::OnsetProgram => 0,
            StateDomain::Pitch => 1,
            StateDomain::Amplitude => 2,
            StateDomain::GateRetrigger => 3,
            StateDomain::Waveform => 4,
            StateDomain::PulseWidth => 5,
            StateDomain::OscillatorContinuation => 6,
            StateDomain::NoiseContinuation => 7,
            StateDomain::Filter => 8,
            StateDomain::Routing => 9,
            StateDomain::CrossVoice => 10,
            StateDomain::Digi => 11,
        }
    }

    /// The place of the domain in their order.
    pub fn index(self) -> (r: usize)
        ensures
            r == self.rank(),
            r < 12,
    {
        match self {
            StateDomain::OnsetProgram => 0,
            StateDomain::Pitch => 1,
            StateDomain::Amplitude => 2,
            StateDomain::GateRetrigger => 3,
            StateDomain::Waveform => 4,
            StateDomain::PulseWidth => 5,
            StateDomain::OscillatorContinuation => 6,
            StateDomain::NoiseContinuation => 7,
            StateDomain::Filter => 8,
            StateDomain::Routing => 9,
            StateDomain::CrossVoice => 10,
            StateDomain::Digi => 11,
        }
    }

    /// The domain at a place in their order.
    pub open spec fn at_rank(rank: int) -> StateDomain {
        choose|d: StateDomain| d.rank() == rank
    }

    /// What the domain is called.
    pub open spec fn word(self) -> Seq<char> {
        match self {
            StateDomain::OnsetProgram => "OnsetProgram"@,
            StateDomain::Pitch => "Pitch"@,
            StateDomain::Amplitude => "Amplitude"@,
            StateDomain::GateRetrigger => "GateRetrigger"@,
            StateDomain::Waveform => "Waveform"@,
            StateDomain::PulseWidth => "PulseWidth"@,
            StateDomain::OscillatorContinuation => "OscillatorContinuation"@,
            StateDomain::NoiseContinuation => "NoiseContinuation"@,
            StateDomain::Filter => "Filter"@,
            StateDomain::Routing => "Routing"@,
            StateDomain::CrossVoice => "CrossVoice"@,
            StateDomain::Digi => "Digi"@,
        }
    }

    /// What the domain is called.
    pub fn name(self) -> (r: &'static str)
        ensures
            r@ == self.word(),
    {
        match self {
            StateDomain::OnsetProgram => "OnsetProgram",
            StateDomain::Pitch => "Pitch",
            StateDomain::Amplitude => "Amplitude",
            StateDomain::GateRetrigger => "GateRetrigger",
            StateDomain::Waveform => "Waveform",
            StateDomain::PulseWidth => "PulseWidth",
            StateDomain::OscillatorContinuation => "OscillatorContinuation",
            StateDomain::NoiseContinuation => "NoiseContinuation",
            StateDomain::Filter => "Filter",
            StateDomain::Routing => "Routing",
            StateDomain::CrossVoice => "CrossVoice",
            StateDomain::Digi => "Digi",
        }
    }

    /// The domain at a place in their order.
    pub fn at(index: usize) -> (r: StateDomain)
        requires
            index < 12,
        ensures
            r.rank() == index,
    {
        match index {
            0 => StateDomain::OnsetProgram,
            1 => StateDomain::Pitch,
            2 => StateDomain::Amplitude,
            3 => StateDomain::GateRetrigger,
            4 => StateDomain::Waveform,
            5 => StateDomain::PulseWidth,
            6 => StateDomain::OscillatorContinuation,
            7 => StateDomain::NoiseContinuation,
            8 => StateDomain::Filter,
            9 => StateDomain::Routing,
            10 => StateDomain::CrossVoice,
            _ => StateDomain::Digi,
        }
    }
}

/// A set of domains.
#[derive(Debug, Clone, Copy)]
#[must_use]
pub struct Coverage {
    held: [bool; 12],
}

impl Coverage {
    /// The domains in the set.
    pub closed spec fn view(self) -> Set<StateDomain> {
        Set::new(|d: StateDomain| self.held@[d.rank()])
    }

    /// No domain.
    pub fn new() -> (r: Coverage)
        ensures
            r@ == Set::<StateDomain>::empty(),
    {
        let r: Coverage = Coverage { held: [false;12] };
        assert(r@ =~= Set::empty());
        r
    }

    /// Adds a domain.
    pub fn insert(&mut self, domain: StateDomain)
        ensures
            final(self)@ == old(self)@.insert(domain),
    {
        self.held[domain.index()] = true;
        assert(self@ =~= old(self)@.insert(domain));
    }

    /// Whether a domain is in the set.
    #[must_use]
    pub fn contains(&self, domain: StateDomain) -> (r: bool)
        ensures
            r == self@.contains(domain),
    {
        self.held[domain.index()]
    }

    /// Whether no domain is in the set.
    #[must_use]
    pub fn is_empty(&self) -> (r: bool)
        ensures
            r == (self@ == Set::<StateDomain>::empty()),
    {
        let mut i: usize = 0;
        while i < 12
            invariant
                i <= 12,
                forall|d: StateDomain| #[trigger] d.rank() < i ==> !self@.contains(d),
            decreases 12 - i,
        {
            if self.held[i] {
                let d: StateDomain = StateDomain::at(i);
                assert(self@.contains(d));
                return false;
            }
            assert forall|d: StateDomain| #[trigger] d.rank() < i + 1 implies !self@.contains(
                d,
            ) by {
                if d.rank() == i {
                    assert(!self.held@[d.rank()]);
                }
            }
            i += 1;
        }
        assert forall|d: StateDomain| !self@.contains(d) by {
            assert(d.rank() < 12);
        }
        assert(self@ =~= Set::empty());
        true
    }

    /// The domains in the set, in their order.
    pub fn domains(&self) -> (r: Vec<StateDomain>)
        ensures
            forall|d: StateDomain| r@.contains(d) <==> self@.contains(d),
            forall|i: int, j: int| 0 <= i < j < r@.len() ==> (#[trigger] r@[i]).rank() < (
            #[trigger] r@[j]).rank(),
    {
        let mut out: Vec<StateDomain> = Vec::new();
        let mut i: usize = 0;
        while i < 12
            invariant
                i <= 12,
                forall|d: StateDomain|
                    #![trigger out@.contains(d)]
                    out@.contains(d) <==> d.rank() < i && self@.contains(d),
                forall|j: int, k: int| 0 <= j < k < out@.len() ==> (#[trigger] out@[j]).rank() < (
                #[trigger] out@[k]).rank(),
                forall|j: int| 0 <= j < out@.len() ==> (#[trigger] out@[j]).rank() < i,
            decreases 12 - i,
        {
            let ghost before = out@;
            let d: StateDomain = StateDomain::at(i);
            if self.held[i] {
                out.push(d);
            }
            proof {
                assert forall|e: StateDomain|
                    #![trigger out@.contains(e)]
                    out@.contains(e) <==> e.rank() < i + 1 && self@.contains(e) by {
                    assert(before.contains(e) <==> e.rank() < i && self@.contains(e));
                    if e.rank() == i {
                        rank_is_injective(e, d);
                    }
                    if before.contains(e) {
                        let k = choose|k: int| 0 <= k < before.len() && before[k] == e;
                        assert(out@[k] == e);
                    }
                    if self.held@[i as int] {
                        assert(out@[before.len() as int] == d);
                    }
                }
            }
            i += 1;
        }
        assert forall|d: StateDomain| out@.contains(d) <==> self@.contains(d) by {
            assert(d.rank() < 12);
        }
        out
    }
}

/// The names of those of the first `k` domains that are in a set.
pub open spec fn listed(set: Set<StateDomain>, k: int) -> Seq<char>
    decreases k,
{
    if k <= 0 {
        Seq::empty()
    } else {
        let before = listed(set, k - 1);
        let d = StateDomain::at_rank(k - 1);
        if !set.contains(d) {
            before
        } else if before.len() == 0 {
            d.word()
        } else {
            before + ", "@ + d.word()
        }
    }
}

impl Coverage {
    /// The names of the domains in the set, in braces.
    pub fn text(&self) -> (r: String)
        ensures
            r@ == "{"@ + listed(self@, 12) + "}"@,
    {
        let mut names: Vec<char> = Vec::new();
        let mut i: usize = 0;
        assert(names@ =~= Seq::<char>::empty());
        while i < DOMAIN_COUNT
            invariant
                i <= DOMAIN_COUNT,
                names@ == listed(self@, i as int),
            decreases DOMAIN_COUNT - i,
        {
            let d: StateDomain = StateDomain::at(i);
            proof {
                rank_is_injective(d, StateDomain::at_rank(i as int));
            }
            if self.contains(d) {
                if names.len() > 0 {
                    push_text(&mut names, ", ");
                    push_text(&mut names, d.name());
                } else {
                    names = to_chars(d.name());
                }
            }
            i += 1;
        }
        let mut out: Vec<char> = to_chars("{");
        push_slice(&mut out, names.as_slice());
        push_text(&mut out, "}");
        from_chars(out.as_slice())
    }
}

/// Different domains have different places.
pub proof fn rank_is_injective(a: StateDomain, b: StateDomain)
    requires
        a.rank() == b.rank(),
    ensures
        a == b,
{
}

impl Default for Coverage {
    fn default() -> (r: Coverage)
        ensures
            r@ == Set::<StateDomain>::empty(),
    {
        Coverage::new()
    }
}

/// A revision of the target.
#[derive(Debug, Clone)]
#[must_use]
pub struct TargetRevision(pub String);

/// A kind of module of the target, by name.
#[derive(Debug, Clone)]
#[must_use]
pub struct ModuleType(pub String);

/// A behaviour that the target may or may not have.
#[derive(Debug, Clone, Copy, PartialEq, Eq, Structural, PartialOrd, Ord)]
#[must_use]
pub enum BehaviorCapability {
    GateRetrigger,
    PhaseReset,
    CycleStampedControl,
    EnvelopeStateInitialization,
    OscillatorStateInitialization,
    NoiseStateInitialization,
    LiveCrossVoice,
    ChipScopedFilter,
    AutomationApplication,
    SequenceContinuation,
    DynamicRouting,
    BundleSampleLoading,
    HeadlessRendering,
}

/// What the target can do.
#[derive(Debug, Clone)]
#[must_use]
pub struct TargetCapabilities {
    pub revision: TargetRevision,
    pub modules: Vec<ModuleType>,
    pub verified_behaviors: Vec<BehaviorCapability>,
}

/// Why the capabilities could not be read.
#[derive(Debug)]
pub enum CapabilityError {
    /// The descriptors are no JSON; the message says where.
    Json(String),
    MissingModules,
}

/// The keys of the object that a JSON text holds under a key, as `serde_json`
/// reads it: no keys if it holds no object there, and a message if the text is
/// no JSON.
pub uninterp spec fn json_member_keys(text: Seq<char>, key: Seq<char>) -> Result<
    Option<Seq<Seq<char>>>,
    Seq<char>,
>;

/// The texts of a list of strings.
pub open spec fn texts(v: Seq<String>) -> Seq<Seq<char>> {
    v.map_values(|s: String| s@)
}

/// `serde_json::from_str` into a `Value`, then `Value::get`,
/// `Value::as_object` and `Map::keys`. What comes back, the error's message
/// included, depends on the two texts alone. Which text holds which keys is not
/// stated.
#[verifier::external_body]
fn read_member_keys(text: &str, key: &str) -> (r: Result<Option<Vec<String>>, String>)
    ensures
        match r {
            Err(m) => json_member_keys(text@, key@) == Err::<Option<Seq<Seq<char>>>, Seq<char>>(m@),
            Ok(None) => json_member_keys(text@, key@) == Ok::<Option<Seq<Seq<char>>>, Seq<char>>(
                None,
            ),
            Ok(Some(keys)) => json_member_keys(text@, key@) == Ok::<
                Option<Seq<Seq<char>>>,
                Seq<char>,
            >(Some(texts(keys@))),
        },
{
    let value: serde_json::Value = match serde_json::from_str(text) {
        Ok(value) => value,
        Err(e) => return Err(e.to_string()),
    };
    let object = value.get(key).and_then(serde_json::Value::as_object);
    Ok(object.map(|members| members.keys().cloned().collect()))
}

/// The revision whose descriptors are mirrored.
pub open spec fn pinned_revision() -> Seq<char> {
    "3e25e679fd6dd962c44d1b4bd1571b1288e096fc"@
}

impl TargetCapabilities {
    /// Whether a module is available.
    pub open spec fn has_module(self, name: Seq<char>) -> bool {
        exists|i: int| 0 <= i < self.modules@.len() && (#[trigger] self.modules@[i]).0@ == name
    }

    /// Whether these are the capabilities of the mirrored revision with some modules:
    /// no behaviour is verified.
    pub open spec fn mirrors(self, modules: Seq<Seq<char>>) -> bool {
        &&& self.revision.0@ == pinned_revision()
        &&& self.verified_behaviors@.len() == 0
        &&& self.modules@.map_values(|m: ModuleType| m.0@) == modules
    }

    /// Whether a behaviour has been verified.
    pub open spec fn has_behavior(self, b: BehaviorCapability) -> bool {
        self.verified_behaviors@.contains(b)
    }

    /// The capabilities that a list of module names stands for.
    pub fn from_module_names(names: Option<Vec<String>>) -> (r: Result<
        TargetCapabilities,
        CapabilityError,
    >)
        ensures
            match names {
                Some(n) => r matches Ok(c) && c.mirrors(texts(n@)),
                None => r matches Err(CapabilityError::MissingModules),
            },
    {
        match names {
            None => Err(CapabilityError::MissingModules),
            Some(list) => {
                let mut modules: Vec<ModuleType> = Vec::new();
                let mut i: usize = 0;
                while i < list.len()
                    invariant
                        i <= list@.len(),
                        modules@.len() == i,
                        forall|j: int| 0 <= j < i ==> (#[trigger] modules@[j]).0@ == list@[j]@,
                    decreases list@.len() - i,
                {
                    modules.push(ModuleType(list[i].clone()));
                    i += 1;
                }
                assert(modules@.map_values(|m: ModuleType| m.0@) =~= texts(list@));
                Ok(
                    TargetCapabilities {
                        revision: TargetRevision(
                            "3e25e679fd6dd962c44d1b4bd1571b1288e096fc".to_owned(),
                        ),
                        modules,
                        verified_behaviors: Vec::new(),
                    },
                )
            },
        }
    }

    /// Reads the capabilities out of the mirrored module descriptors. No
    /// behaviour counts as verified yet.
    pub fn from_pinned_mirrors(descriptors: &str) -> (r: Result<
        TargetCapabilities,
        CapabilityError,
    >)
        ensures
            match json_member_keys(descriptors@, "modules"@) {
                Err(m) => r matches Err(CapabilityError::Json(e)) && e@ == m,
                Ok(None) => r matches Err(CapabilityError::MissingModules),
                Ok(Some(keys)) => r matches Ok(c) && c.mirrors(keys),
            },
    {
        match read_member_keys(descriptors, "modules") {
            Err(e) => Err(CapabilityError::Json(e)),
            Ok(names) => TargetCapabilities::from_module_names(names),
        }
    }

    /// Adds a verified behaviour.
    pub fn with_verified_behavior(self, behavior: BehaviorCapability) -> (r: TargetCapabilities)
        ensures
            r.revision == self.revision,
            r.modules == self.modules,
            forall|b: BehaviorCapability|
                r.has_behavior(b) <==> self.has_behavior(b) || b == behavior,
    {
        let ghost before = self.verified_behaviors@;
        if self.supports_behavior(behavior) {
            return self;
        }
        let mut extended: TargetCapabilities = self;
        extended.verified_behaviors.push(behavior);
        proof {
            let after = extended.verified_behaviors@;
            assert forall|b: BehaviorCapability|
                after.contains(b) <==> before.contains(b) || b == behavior by {
                if before.contains(b) {
                    let i = choose|i: int| 0 <= i < before.len() && before[i] == b;
                    assert(after[i] == b);
                }
                assert(after[before.len() as int] == behavior);
            }
        }
        extended
    }

    /// Tells whether a module is available.
    #[must_use]
    pub fn supports_module(&self, module: &str) -> (r: bool)
        ensures
            r == self.has_module(module@),
    {
        let wanted: String = module.to_owned();
        let mut i: usize = 0;
        while i < self.modules.len()
            invariant
                i <= self.modules@.len(),
                wanted@ == module@,
                forall|j: int| 0 <= j < i ==> (#[trigger] self.modules@[j]).0@ != module@,
            decreases self.modules@.len() - i,
        {
            if self.modules[i].0 == wanted {
                return true;
            }
            i += 1;
        }
        false
    }

    /// Tells whether a behaviour has been verified.
    #[must_use]
    pub fn supports_behavior(&self, behavior: BehaviorCapability) -> (r: bool)
        ensures
            r == self.has_behavior(behavior),
    {
        let mut i: usize = 0;
        while i < self.verified_behaviors.len()
            invariant
                i <= self.verified_behaviors@.len(),
                forall|j: int| 0 <= j < i ==> self.verified_behaviors@[j] != behavior,
            decreases self.verified_behaviors@.len() - i,
        {
            if self.verified_behaviors[i] == behavior {
                return true;
            }
            i += 1;
        }
        false
    }
}

/// The place of a candidate in a plan.
#[derive(Debug, Clone, Copy, PartialEq, Eq, Structural, PartialOrd, Ord)]
#[must_use]
pub struct CandidateId(pub u64);

/// The means by which a candidate represents sound.
#[derive(Debug, Clone, Copy, PartialEq, Eq, Structural, PartialOrd, Ord)]
#[must_use]
pub enum RepresentationClass {
    NativeAdsr,
    NormalizedAdsr,
    Mseg,
    Arpeggiator,
    Glide,
    Lfo,
    KineticModulator,
    DirectCv,
    ModMatrix,
    Script,
    SidOscillator,
    SidSequence,
    SharedFilter,
    SparseAutomation,
    DenseAutomation,
    Sampler,
}

/// Whether a candidate has to be rendered before it may be used.
#[derive(Debug, Clone, Copy, PartialEq, Eq, Structural)]
#[must_use]
pub enum RenderRequirement {
    Required,
    PinnedBaseline,
}

/// A number of points in a recipe.
#[derive(Debug, Clone, Copy, PartialEq, Eq, Structural, PartialOrd, Ord)]
#[must_use]
pub struct RecipePointCount(pub u32);

/// What a candidate applies to.
#[derive(Debug, Clone)]
#[must_use]
pub struct CandidateScope {
    pub voices: Vec<VoiceId>,
    pub regions: Vec<SoundRegionId>,
    pub definitions: Vec<ProgramDefinitionId>,
    pub occurrences: Vec<ProgramOccurrenceId>,
    pub continuous_occurrences: Vec<ContinuousOccurrenceId>,
    pub reuse_groups: Vec<ProgramReuseGroupId>,
    pub interpretations: Vec<SignalInterpretationId>,
}

/// What a candidate would build.
#[derive(Debug, Clone)]
#[must_use]
pub enum CandidateRecipe {
    NativeAdsr { envelope_points: RecipePointCount, history_sensitive_entries: StateMismatchCount },
    NormalizedAdsr {
        envelope_points: RecipePointCount,
        history_sensitive_entries: StateMismatchCount,
    },
    Mseg { envelope_points: RecipePointCount, reset_from_current_entries: StateMismatchCount },
    GateDrivenEnvelope { envelope_points: RecipePointCount },
    Arpeggiator { interpretations: Vec<SignalInterpretationId> },
    Glide { interpretations: Vec<SignalInterpretationId> },
    Lfo { interpretations: Vec<SignalInterpretationId> },
    KineticModulator { interpretations: Vec<SignalInterpretationId> },
    DirectCv { dependency_count: RecipePointCount },
    ModMatrix { dependency_count: RecipePointCount },
    Script { interpretations: Vec<SignalInterpretationId> },
    SidOscillator { waveform_points: RecipePointCount },
    SidSequence {
        definitions: Vec<ProgramDefinitionId>,
        occurrences: Vec<ContinuousOccurrenceId>,
        reuse_groups: Vec<ProgramReuseGroupId>,
        onset_programs: Vec<OnsetProgramRecipe>,
        oscillator_starts: Vec<OscillatorStartRecipe>,
        noise_starts: Vec<NoiseStartRecipe>,
    },
    SharedFilter { control_points: RecipePointCount, topology_edges: RecipePointCount },
    Automation { dense: bool, control_points: RecipePointCount, fallbacks: Vec<FallbackReason> },
    Sampler { sample_points: RecipePointCount },
}

/// Why automation has to stand in for something better.
#[derive(Debug, Clone, Copy, PartialEq, Eq, Structural, PartialOrd, Ord)]
#[must_use]
pub enum FallbackReason {
    InstructionStartTiming,
    EnvelopeHistory,
    OscillatorContinuation,
    NoiseContinuation,
    VoiceLocalFilter,
    CrossVoiceTopology,
    AmbiguousCausalModulation,
    RandomModulation,
    DigiUnsupported,
}

/// What a candidate needs of the target.
#[derive(Debug, Clone)]
#[must_use]
pub enum Requirement {
    Module(ModuleType),
    Behavior(BehaviorCapability),
}

/// How a candidate is known to differ from the chip.
#[derive(Debug, Clone, Copy, PartialEq, Eq, Structural, PartialOrd, Ord)]
#[must_use]
pub enum KnownLoss {
    Exact,
    TimingBounded,
    StateApproximation,
    TopologyApproximation,
    RenderedFallback,
}

/// How well a candidate can be edited.
#[derive(Debug, Clone, Copy, PartialEq, Eq, Structural, PartialOrd, Ord)]
#[must_use]
pub enum EditabilityClass {
    Native,
    Structured,
    Scripted,
    SparseAutomation,
    DenseAutomation,
    Rendered,
}

/// How many modules a candidate adds.
#[derive(Debug, Clone, Copy, PartialEq, Eq, Structural, PartialOrd, Ord)]
#[must_use]
pub struct GraphComplexity(pub u32);

/// How many automation points a candidate adds.
#[derive(Debug, Clone, Copy, PartialEq, Eq, Structural, PartialOrd, Ord)]
#[must_use]
pub struct AutomationDensity(pub u32);

/// How many bytes a recipe takes when written out.
#[derive(Debug, Clone, Copy, PartialEq, Eq, Structural, PartialOrd, Ord)]
#[must_use]
pub struct SerializedSize(pub u64);

/// What a candidate costs its user, the first field weighing most.
#[derive(Debug, Clone, Copy, PartialEq, Eq, Structural, PartialOrd, Ord)]
#[must_use]
pub struct EditCost {
    pub known_loss: KnownLoss,
    pub editability: EditabilityClass,
    pub graph_complexity: GraphComplexity,
    pub automation_density: AutomationDensity,
    pub serialized_size: SerializedSize,
}

/// A pitch deviation in thousandths of a cent.
#[derive(Debug, Clone, Copy, PartialEq, Eq, Structural)]
#[must_use]
pub struct CentsResidual(pub u32);

/// A level deviation in thousandths of full scale.
#[derive(Debug, Clone, Copy, PartialEq, Eq, Structural)]
#[must_use]
pub struct LevelResidual(pub u32);

/// A number of mismatching states.
#[derive(Debug, Clone, Copy, PartialEq, Eq, Structural)]
#[must_use]
pub struct StateMismatchCount(pub u64);

/// How far a candidate is off, domain by domain.
#[derive(Debug, Clone, Copy, PartialEq, Eq, Structural)]
#[must_use]
pub struct StateResiduals {
    pub onset_program: StateMismatchCount,
    pub maximum_pitch: CentsResidual,
    pub maximum_level: LevelResidual,
    pub gate_retrigger: StateMismatchCount,
    pub waveform: StateMismatchCount,
    pub pulse_width: StateMismatchCount,
    pub oscillator_continuation: StateMismatchCount,
    pub noise_continuation: StateMismatchCount,
    pub filter: StateMismatchCount,
    pub routing: StateMismatchCount,
    pub cross_voice: StateMismatchCount,
    pub digi: StateMismatchCount,
}

/// How far a candidate may be off, domain by domain.
#[derive(Debug, Clone, Copy, PartialEq, Eq, Structural)]
#[must_use]
pub struct StateBudget {
    pub onset_program: StateMismatchCount,
    pub maximum_pitch: CentsResidual,
    pub maximum_level: LevelResidual,
    pub gate_retrigger: StateMismatchCount,
    pub waveform: StateMismatchCount,
    pub pulse_width: StateMismatchCount,
    pub oscillator_continuation: StateMismatchCount,
    pub noise_continuation: StateMismatchCount,
    pub filter: StateMismatchCount,
    pub routing: StateMismatchCount,
    pub cross_voice: StateMismatchCount,
    pub digi: StateMismatchCount,
}

/// The usual budget: half a semitone, two hundredths of the level, and nothing else.
pub open spec fn plain_budget() -> StateBudget {
    StateBudget {
        onset_program: StateMismatchCount(0),
        maximum_pitch: CentsResidual(50_000),
        maximum_level: LevelResidual(20),
        gate_retrigger: StateMismatchCount(0),
        waveform: StateMismatchCount(0),
        pulse_width: StateMismatchCount(0),
        oscillator_continuation: StateMismatchCount(0),
        noise_continuation: StateMismatchCount(0),
        filter: StateMismatchCount(0),
        routing: StateMismatchCount(0),
        cross_voice: StateMismatchCount(0),
        digi: StateMismatchCount(0),
    }
}

impl Default for StateBudget {
    fn default() -> (r: StateBudget)
        ensures
            r == plain_budget(),
    {
        StateBudget {
            onset_program: StateMismatchCount(0),
            maximum_pitch: CentsResidual(50_000),
            maximum_level: LevelResidual(20),
            gate_retrigger: StateMismatchCount(0),
            waveform: StateMismatchCount(0),
            pulse_width: StateMismatchCount(0),
            oscillator_continuation: StateMismatchCount(0),
            noise_continuation: StateMismatchCount(0),
            filter: StateMismatchCount(0),
            routing: StateMismatchCount(0),
            cross_voice: StateMismatchCount(0),
            digi: StateMismatchCount(0),
        }
    }
}

impl StateResiduals {
    /// No deviation at all.
    pub open spec fn none() -> StateResiduals {
        StateResiduals {
            onset_program: StateMismatchCount(0),
            maximum_pitch: CentsResidual(0),
            maximum_level: LevelResidual(0),
            gate_retrigger: StateMismatchCount(0),
            waveform: StateMismatchCount(0),
            pulse_width: StateMismatchCount(0),
            oscillator_continuation: StateMismatchCount(0),
            noise_continuation: StateMismatchCount(0),
            filter: StateMismatchCount(0),
            routing: StateMismatchCount(0),
            cross_voice: StateMismatchCount(0),
            digi: StateMismatchCount(0),
        }
    }

    /// Whether no deviation exceeds the budget.
    pub open spec fn fits(self, budget: StateBudget) -> bool {
        &&& self.onset_program.0 <= budget.onset_program.0
        &&& self.maximum_pitch.0 <= budget.maximum_pitch.0
        &&& self.maximum_level.0 <= budget.maximum_level.0
        &&& self.gate_retrigger.0 <= budget.gate_retrigger.0
        &&& self.waveform.0 <= budget.waveform.0
        &&& self.pulse_width.0 <= budget.pulse_width.0
        &&& self.oscillator_continuation.0 <= budget.oscillator_continuation.0
        &&& self.noise_continuation.0 <= budget.noise_continuation.0
        &&& self.filter.0 <= budget.filter.0
        &&& self.routing.0 <= budget.routing.0
        &&& self.cross_voice.0 <= budget.cross_voice.0
        &&& self.digi.0 <= budget.digi.0
    }

    pub(crate) fn exact() -> (r: StateResiduals)
        ensures
            r == StateResiduals::none(),
    {
        StateResiduals {
            onset_program: StateMismatchCount(0),
            maximum_pitch: CentsResidual(0),
            maximum_level: LevelResidual(0),
            gate_retrigger: StateMismatchCount(0),
            waveform: StateMismatchCount(0),
            pulse_width: StateMismatchCount(0),
            oscillator_continuation: StateMismatchCount(0),
            noise_continuation: StateMismatchCount(0),
            filter: StateMismatchCount(0),
            routing: StateMismatchCount(0),
            cross_voice: StateMismatchCount(0),
            digi: StateMismatchCount(0),
        }
    }

    fn within(&self, budget: StateBudget) -> (r: bool)
        ensures
            r == self.fits(budget),
    {
        self.onset_program.0 <= budget.onset_program.0 && self.maximum_pitch.0
            <= budget.maximum_pitch.0 && self.maximum_level.0 <= budget.maximum_level.0
            && self.gate_retrigger.0 <= budget.gate_retrigger.0 && self.waveform.0
            <= budget.waveform.0 && self.pulse_width.0 <= budget.pulse_width.0
            && self.oscillator_continuation.0 <= budget.oscillator_continuation.0
            && self.noise_continuation.0 <= budget.noise_continuation.0 && self.filter.0
            <= budget.filter.0 && self.routing.0 <= budget.routing.0 && self.cross_voice.0
            <= budget.cross_voice.0 && self.digi.0 <= budget.digi.0
    }
}

/// One way to represent part of the sound.
#[derive(Debug, Clone)]
#[must_use]
pub struct RepresentationCandidate {
    pub id: CandidateId,
    pub class: RepresentationClass,
    pub coverage: Coverage,
    pub requirements: Vec<Requirement>,
    pub known_losses: Vec<KnownLoss>,
    pub cost: EditCost,
    pub residuals: StateResiduals,
    pub render_requirement: RenderRequirement,
    pub scope: CandidateScope,
    pub recipe: CandidateRecipe,
}

/// Why a candidate is no option.
#[derive(Debug, Clone)]
#[must_use]
pub enum RejectionReason {
    MissingRequirement(Requirement),
    StateBudgetExceeded,
}

/// What was decided about a candidate from its state alone.
#[derive(Debug, Clone)]
#[must_use]
pub struct CandidateDecision {
    pub candidate: CandidateId,
    pub accepted: bool,
    pub rejected: Vec<RejectionReason>,
}

/// The candidate chosen for each domain.
#[derive(Debug, Clone, Copy)]
#[must_use]
pub struct Selection {
    chosen: [Option<CandidateId>; 12],
}

impl Selection {
    /// The candidate chosen for a domain.
    pub closed spec fn choice(self, domain: StateDomain) -> Option<CandidateId> {
        self.chosen@[domain.rank()]
    }

    fn new() -> (r: Selection)
        ensures
            forall|d: StateDomain| #[trigger] r.choice(d) is None,
    {
        Selection { chosen: [None;12] }
    }

    fn set(&mut self, domain: StateDomain, id: Option<CandidateId>)
        ensures
            final(self).choice(domain) == id,
            forall|d: StateDomain|
                d != domain ==> #[trigger] final(self).choice(d) == old(self).choice(d),
    {
        self.chosen[domain.index()] = id;
        assert forall|d: StateDomain| d != domain implies #[trigger] self.choice(d) == old(
            self,
        ).choice(d) by {
            if d.rank() == domain.rank() {
                rank_is_injective(d, domain);
            }
        }
    }

    /// The candidate chosen for a domain.
    pub fn get(&self, domain: StateDomain) -> (r: Option<CandidateId>)
        ensures
            r == self.choice(domain),
    {
        self.chosen[domain.index()]
    }
}

/// The candidates of a tune and what was chosen among them.
#[derive(Debug, Clone)]
#[must_use]
pub struct PertylizerLoweringPlan {
    pub target: TargetRevision,
    pub required: Coverage,
    pub candidates: Vec<RepresentationCandidate>,
    pub decisions: Vec<CandidateDecision>,
    pub selected: Selection,
    pub uncovered: Coverage,
}

/// Why a candidate did not pass the render gate.
#[derive(Debug, Clone, Copy, PartialEq, Eq, Structural)]
#[must_use]
pub enum RenderGateRejection {
    StateGateRejected,
    NotRendered,
    AudioBudgetExceeded,
}

/// Whether the rendering of a candidate was close enough to the chip.
#[derive(Debug, Clone, Copy, PartialEq, Eq, Structural)]
#[must_use]
pub struct CandidateRenderEvaluation {
    pub candidate: CandidateId,
    pub within_audio_budget: bool,
}

/// What was decided about a candidate from its rendering.
#[derive(Debug, Clone, Copy, PartialEq, Eq, Structural)]
#[must_use]
pub struct RenderGateDecision {
    pub candidate: CandidateId,
    pub accepted: bool,
    pub rejection: Option<RenderGateRejection>,
}

/// The candidates that passed the render gate, and the choice among them.
#[derive(Debug, Clone)]
#[must_use]
pub struct RenderGatedSelection {
    pub decisions: Vec<RenderGateDecision>,
    pub selected: Selection,
    pub uncovered: Coverage,
}

/// The choice by state and the choice by rendering.
#[derive(Debug, Clone)]
#[must_use]
pub struct AutomaticSelection {
    pub state: PertylizerLoweringPlan,
    pub render: RenderGatedSelection,
}

/// The place of an editability class in their order.
pub open spec fn editability_rank(e: EditabilityClass) -> int {
    match e {
        EditabilityClass::Native => 0,
        EditabilityClass::Structured => 1,
        EditabilityClass::Scripted => 2,
        EditabilityClass::SparseAutomation => 3,
        EditabilityClass::DenseAutomation => 4,
        EditabilityClass::Rendered => 5,
    }
}

/// What decides between candidates, most important first: the loss, the
/// editability, the modules, the automation points, the size and the place.
pub open spec fn cost_key(c: RepresentationCandidate) -> Seq<int> {
    seq![
        loss_rank(c.cost.known_loss),
        editability_rank(c.cost.editability),
        c.cost.graph_complexity.0 as int,
        c.cost.automation_density.0 as int,
        c.cost.serialized_size.0 as int,
        c.id.0 as int,
    ]
}

/// Whether the first difference of two keys is in favour of the first.
pub open spec fn key_less(a: Seq<int>, b: Seq<int>, from: int) -> bool
    decreases 6 - from,
{
    if from < 0 || from >= 6 {
        false
    } else if a[from] != b[from] {
        a[from] < b[from]
    } else {
        key_less(a, b, from + 1)
    }
}

/// Whether a candidate costs less than another.
pub open spec fn cheaper(a: RepresentationCandidate, b: RepresentationCandidate) -> bool {
    key_less(cost_key(a), cost_key(b), 0)
}

/// Whether a candidate is an option for a domain.
pub open spec fn option_for(
    cs: Seq<RepresentationCandidate>,
    ok: spec_fn(int) -> bool,
    d: StateDomain,
    i: int,
) -> bool {
    0 <= i < cs.len() && ok(i) && cs[i].coverage@.contains(d)
}

/// Whether a choice is right: the cheapest option for the domain, or nothing if
/// there is no option.
pub open spec fn right_choice(
    cs: Seq<RepresentationCandidate>,
    ok: spec_fn(int) -> bool,
    d: StateDomain,
    choice: Option<CandidateId>,
) -> bool {
    match choice {
        Some(id) => exists|i: int| #[trigger]
            option_for(cs, ok, d, i) && cs[i].id == id && forall|j: int| #[trigger]
                option_for(cs, ok, d, j) ==> !cheaper(cs[j], cs[i]),
        None => forall|i: int| !#[trigger] option_for(cs, ok, d, i),
    }
}

/// Whether a selection holds the right choice for every required domain and
/// none for the others, and lists the domains without a choice as uncovered.
pub open spec fn right_selection(
    cs: Seq<RepresentationCandidate>,
    ok: spec_fn(int) -> bool,
    required: Set<StateDomain>,
    selected: Selection,
    uncovered: Set<StateDomain>,
) -> bool {
    &&& forall|d: StateDomain| #[trigger]
        selected.choice(d) is Some ==> required.contains(d)
    &&& forall|d: StateDomain|
        required.contains(d) ==> right_choice(cs, ok, d, #[trigger] selected.choice(d))
    &&& forall|d: StateDomain| #[trigger]
        uncovered.contains(d) <==> required.contains(d) && selected.choice(d) is None
}

proof fn key_less_is_transitive(a: Seq<int>, b: Seq<int>, c: Seq<int>, from: int)
    requires
        0 <= from <= 6,
        key_less(a, b, from),
        key_less(b, c, from),
    ensures
        key_less(a, c, from),
    decreases 6 - from,
{
    if from < 6 && a[from] == b[from] && b[from] == c[from] {
        key_less_is_transitive(a, b, c, from + 1);
    }
}

proof fn key_less_is_irreflexive(a: Seq<int>, from: int)
    requires
        0 <= from <= 6,
    ensures
        !key_less(a, a, from),
    decreases 6 - from,
{
    if from < 6 {
        key_less_is_irreflexive(a, from + 1);
    }
}

proof fn not_less_chain(a: Seq<int>, b: Seq<int>, c: Seq<int>, from: int)
    requires
        0 <= from <= 6,
        !key_less(a, b, from),
        key_less(c, b, from),
    ensures
        !key_less(a, c, from),
{
    if key_less(a, c, from) {
        key_less_is_transitive(a, c, b, from);
    }
}

fn rank_of_loss(l: KnownLoss) -> (r: u64)
    ensures
        r == loss_rank(l),
{
    match l {
        KnownLoss::Exact => 0,
        KnownLoss::TimingBounded => 1,
        KnownLoss::StateApproximation => 2,
        KnownLoss::TopologyApproximation => 3,
        KnownLoss::RenderedFallback => 4,
    }
}

fn rank_of_editability(e: EditabilityClass) -> (r: u64)
    ensures
        r == editability_rank(e),
{
    match e {
        EditabilityClass::Native => 0,
        EditabilityClass::Structured => 1,
        EditabilityClass::Scripted => 2,
        EditabilityClass::SparseAutomation => 3,
        EditabilityClass::DenseAutomation => 4,
        EditabilityClass::Rendered => 5,
    }
}

fn is_cheaper(a: &RepresentationCandidate, b: &RepresentationCandidate) -> (r: bool)
    ensures
        r == cheaper(*a, *b),
{
    proof {
        reveal_with_fuel(key_less, 7);
    }
    let loss_a: u64 = rank_of_loss(a.cost.known_loss);
    let loss_b: u64 = rank_of_loss(b.cost.known_loss);
    if loss_a != loss_b {
        return loss_a < loss_b;
    }
    let edit_a: u64 = rank_of_editability(a.cost.editability);
    let edit_b: u64 = rank_of_editability(b.cost.editability);
    if edit_a != edit_b {
        return edit_a < edit_b;
    }
    if a.cost.graph_complexity.0 != b.cost.graph_complexity.0 {
        return a.cost.graph_complexity.0 < b.cost.graph_complexity.0;
    }
    if a.cost.automation_density.0 != b.cost.automation_density.0 {
        return a.cost.automation_density.0 < b.cost.automation_density.0;
    }
    if a.cost.serialized_size.0 != b.cost.serialized_size.0 {
        return a.cost.serialized_size.0 < b.cost.serialized_size.0;
    }
    a.id.0 < b.id.0
}

fn best_for(cs: &Vec<RepresentationCandidate>, ok: &Vec<bool>, d: StateDomain) -> (r: Option<
    CandidateId,
>)
    requires
        ok@.len() == cs@.len(),
    ensures
        right_choice(cs@, |i: int| ok@[i], d, r),
{
    let ghost f = |i: int| ok@[i];
    let mut best: Option<usize> = None;
    let mut i: usize = 0;
    while i < cs.len()
        invariant
            i <= cs@.len(),
            ok@.len() == cs@.len(),
            f == |i: int| ok@[i],
            match best {
                Some(b) => b < i && option_for(cs@, f, d, b as int) && forall|j: int|
                    j < i && #[trigger] option_for(cs@, f, d, j) ==> !cheaper(
                        cs@[j],
                        cs@[b as int],
                    ),
                None => forall|j: int| j < i ==> !#[trigger] option_for(cs@, f, d, j),
            },
        decreases cs@.len() - i,
    {
        let ghost before = best;
        if ok[i] && cs[i].coverage.contains(d) {
            assert(option_for(cs@, f, d, i as int));
            match best {
                None => {
                    best = Some(i);
                    proof {
                        key_less_is_irreflexive(cost_key(cs@[i as int]), 0);
                    }
                },
                Some(b) => {
                    if is_cheaper(&cs[i], &cs[b]) {
                        best = Some(i);
                        proof {
                            key_less_is_irreflexive(cost_key(cs@[i as int]), 0);
                            assert forall|j: int|
                                j < i + 1 && #[trigger] option_for(
                                    cs@,
                                    f,
                                    d,
                                    j,
                                ) implies !cheaper(cs@[j], cs@[i as int]) by {
                                if j < i {
                                    not_less_chain(
                                        cost_key(cs@[j]),
                                        cost_key(cs@[b as int]),
                                        cost_key(cs@[i as int]),
                                        0,
                                    );
                                }
                            }
                        }
                    }
                },
            }
        } else {
            assert(!option_for(cs@, f, d, i as int));
        }
        i += 1;
    }
    match best {
        Some(b) => {
            assert forall|j: int| #[trigger] option_for(cs@, f, d, j) implies !cheaper(
                cs@[j],
                cs@[b as int],
            ) by {
                assert(j < i);
            }
            Some(cs[b].id)
        },
        None => {
            assert forall|j: int| !#[trigger] option_for(cs@, f, d, j) by {
                if option_for(cs@, f, d, j) {
                    assert(j < i);
                }
            }
            None
        },
    }
}

fn select(cs: &Vec<RepresentationCandidate>, ok: &Vec<bool>, required: &Coverage) -> (r: (
    Selection,
    Coverage,
))
    requires
        ok@.len() == cs@.len(),
    ensures
        right_selection(cs@, |i: int| ok@[i], required@, r.0, r.1@),
{
    let ghost f = |i: int| ok@[i];
    let mut selected: Selection = Selection::new();
    let mut uncovered: Coverage = Coverage::new();
    let mut i: usize = 0;
    while i < 12
        invariant
            i <= 12,
            ok@.len() == cs@.len(),
            f == |i: int| ok@[i],
            forall|d: StateDomain| #[trigger]
                selected.choice(d) is Some ==> required@.contains(d) && d.rank() < i,
            forall|d: StateDomain|
                required@.contains(d) && d.rank() < i ==> right_choice(
                    cs@,
                    f,
                    d,
                    #[trigger] selected.choice(d),
                ),
            forall|d: StateDomain| #[trigger]
                uncovered@.contains(d) <==> required@.contains(d) && d.rank() < i
                    && selected.choice(d) is None,
        decreases 12 - i,
    {
        let domain: StateDomain = StateDomain::at(i);
        let ghost sel = selected;
        let ghost unc = uncovered@;
        if required.contains(domain) {
            let best: Option<CandidateId> = best_for(cs, ok, domain);
            selected.set(domain, best);
            if best.is_none() {
                uncovered.insert(domain);
            }
        }
        proof {
            assert forall|d: StateDomain|
                required@.contains(d) && d.rank() < i + 1 implies right_choice(
                cs@,
                f,
                d,
                #[trigger] selected.choice(d),
            ) by {
                if d.rank() == i {
                    rank_is_injective(d, domain);
                } else {
                    assert(d != domain);
                    assert(right_choice(cs@, f, d, sel.choice(d)));
                }
            }
            assert forall|d: StateDomain| #[trigger]
                uncovered@.contains(d) <==> required@.contains(d) && d.rank() < i + 1
                    && selected.choice(d) is None by {
                assert(unc.contains(d) <==> required@.contains(d) && d.rank() < i && sel.choice(
                    d,
                ) is None);
                if d.rank() == i {
                    rank_is_injective(d, domain);
                } else {
                    assert(d != domain);
                }
            }
            assert forall|d: StateDomain| #[trigger]
                selected.choice(d) is Some implies required@.contains(d) && d.rank() < i + 1 by {
                if d != domain {
                    assert(sel.choice(d) == selected.choice(d));
                }
            }
        }
        i += 1;
    }
    assert forall|d: StateDomain|
        required@.contains(d) implies right_choice(cs@, f, d, #[trigger] selected.choice(d)) by {
        assert(d.rank() < 12);
    }
    assert forall|d: StateDomain| #[trigger]
        uncovered@.contains(d) <==> required@.contains(d) && selected.choice(d) is None by {
        assert(d.rank() < 12);
    }
    (selected, uncovered)
}

/// A rejection as plain values.
pub enum RejectionView {
    MissingRequirement(RequirementView),
    StateBudgetExceeded,
}

impl RejectionReason {
    /// The rejection as plain values.
    pub open spec fn view(self) -> RejectionView {
        match self {
            RejectionReason::MissingRequirement(r) => RejectionView::MissingRequirement(r.view()),
            RejectionReason::StateBudgetExceeded => RejectionView::StateBudgetExceeded,
        }
    }
}

/// Rejections as plain values.
pub open spec fn rejection_views(s: Seq<RejectionReason>) -> Seq<RejectionView> {
    s.map_values(|r: RejectionReason| r.view())
}

/// Whether the target meets a requirement.
pub open spec fn met(r: RequirementView, capabilities: TargetCapabilities) -> bool {
    match r {
        RequirementView::Module(name) => capabilities.has_module(name),
        RequirementView::Behavior(b) => capabilities.has_behavior(b),
    }
}

/// The requirements that the target does not meet, in order.
pub open spec fn unmet(
    requirements: Seq<RequirementView>,
    capabilities: TargetCapabilities,
) -> Seq<RejectionView>
    decreases requirements.len(),
{
    if requirements.len() == 0 {
        Seq::empty()
    } else {
        let before = unmet(requirements.drop_last(), capabilities);
        if met(requirements.last(), capabilities) {
            before
        } else {
            before.push(RejectionView::MissingRequirement(requirements.last()))
        }
    }
}

/// Why a candidate is rejected: the unmet requirements, and the budget unless
/// the candidate is the baseline.
pub open spec fn rejections(
    c: RepresentationCandidate,
    capabilities: TargetCapabilities,
    budget: StateBudget,
) -> Seq<RejectionView> {
    unmet(requirement_views(c.requirements@), capabilities) + only_if(
        c.render_requirement != RenderRequirement::PinnedBaseline && !c.residuals.fits(budget),
        RejectionView::StateBudgetExceeded,
    )
}

/// Whether a decision is right: accepted iff there is nothing to reject.
pub open spec fn right_decision(
    c: RepresentationCandidate,
    capabilities: TargetCapabilities,
    budget: StateBudget,
    decision: CandidateDecision,
) -> bool {
    &&& decision.candidate == c.id
    &&& rejection_views(decision.rejected@) == rejections(c, capabilities, budget)
    &&& decision.accepted == (rejections(c, capabilities, budget).len() == 0)
}

fn copy_requirement(r: &Requirement) -> (c: Requirement)
    ensures
        c.view() == r.view(),
{
    match r {
        Requirement::Module(m) => Requirement::Module(ModuleType(m.0.clone())),
        Requirement::Behavior(b) => Requirement::Behavior(*b),
    }
}

fn decide(
    c: &RepresentationCandidate,
    capabilities: &TargetCapabilities,
    budget: StateBudget,
) -> (r: CandidateDecision)
    ensures
        right_decision(*c, *capabilities, budget, r),
{
    let mut rejected: Vec<RejectionReason> = Vec::new();
    let ghost views = requirement_views(c.requirements@);
    let mut i: usize = 0;
    assert(rejection_views(rejected@) =~= Seq::empty());
    assert(views.take(0) =~= Seq::<RequirementView>::empty());
    while i < c.requirements.len()
        invariant
            i <= c.requirements@.len(),
            views == requirement_views(c.requirements@),
            rejection_views(rejected@) == unmet(views.take(i as int), *capabilities),
        decreases c.requirements@.len() - i,
    {
        let needed: &Requirement = &c.requirements[i];
        assert(views.take(i + 1).drop_last() =~= views.take(i as int));
        assert(views[i as int] == needed.view());
        let supported: bool = match needed {
            Requirement::Module(m) => capabilities.supports_module(m.0.as_str()),
            Requirement::Behavior(b) => capabilities.supports_behavior(*b),
        };
        if !supported {
            let ghost before = rejected@;
            let reason: RejectionReason = RejectionReason::MissingRequirement(
                copy_requirement(needed),
            );
            rejected.push(reason);
            assert(rejection_views(rejected@) =~= rejection_views(before).push(reason.view()));
        }
        i += 1;
    }
    assert(views.take(views.len() as int) =~= views);
    let ghost before = rejected@;
    if c.render_requirement != RenderRequirement::PinnedBaseline && !c.residuals.within(budget) {
        rejected.push(RejectionReason::StateBudgetExceeded);
    }
    assert(rejection_views(rejected@) =~= rejections(*c, *capabilities, budget));
    CandidateDecision { candidate: c.id, accepted: rejected.len() == 0, rejected }
}

/// What compiling a program gives.
pub open spec fn right_plan(
    plan: PertylizerLoweringPlan,
    program: AnalyzedSidProgram,
    capabilities: TargetCapabilities,
    budget: StateBudget,
    sizes: Seq<SerializedSize>,
) -> bool {
    &&& plan.target.0@ == capabilities.revision.0@
    &&& plan.required@ == needed_domains(program)
    &&& realize_all(plan.candidates@, program, sizes)
    &&& plan.decisions@.len() == plan.candidates@.len()
    &&& forall|i: int|
        0 <= i < plan.candidates@.len() ==> right_decision(
            plan.candidates@[i],
            capabilities,
            budget,
            #[trigger] plan.decisions@[i],
        )
    &&& right_selection(
        plan.candidates@,
        |i: int| plan.decisions@[i].accepted,
        plan.required@,
        plan.selected,
        plan.uncovered@,
    )
}

/// The last of the program's candidates automates everything and is always
/// accepted.
proof fn baseline_is_accepted(
    c: RepresentationCandidate,
    program: AnalyzedSidProgram,
    capabilities: TargetCapabilities,
    budget: StateBudget,
    place: int,
    size: u64,
)
    requires
        place == program_drafts(program).len() - 1,
        candidates::realizes(c, program_drafts(program)[place], program, place, size),
    ensures
        c.coverage@ == needed_domains(program),
        c.render_requirement == RenderRequirement::PinnedBaseline,
        rejections(c, capabilities, budget).len() == 0,
{
    let drafts = program_drafts(program);
    assert(drafts[place] == automation_drafts(program)[1]);
    assert(requirement_views(c.requirements@).len() == 0);
}

/// Every domain that a program needs has a state-valid representation: no
/// domain stays uncovered.
pub proof fn compiling_covers_every_domain(
    plan: PertylizerLoweringPlan,
    program: AnalyzedSidProgram,
    capabilities: TargetCapabilities,
    budget: StateBudget,
    sizes: Seq<SerializedSize>,
)
    requires
        right_plan(plan, program, capabilities, budget, sizes),
    ensures
        plan.uncovered@ == Set::<StateDomain>::empty(),
{
    let cs = plan.candidates@;
    let ok = |i: int| plan.decisions@[i].accepted;
    let last = program_drafts(program).len() - 1;
    baseline_is_accepted(cs[last], program, capabilities, budget, last, size_at(sizes, last));
    assert(right_decision(cs[last], capabilities, budget, plan.decisions@[last]));
    assert forall|d: StateDomain| !#[trigger] plan.uncovered@.contains(d) by {
        if plan.uncovered@.contains(d) {
            assert(right_choice(cs, ok, d, plan.selected.choice(d)));
            assert(option_for(cs, ok, d, last));
        }
    }
    assert(plan.uncovered@ =~= Set::empty());
}

/// Compiles a program: drafts every candidate, decides which of them are
/// state-valid on the target, and chooses the cheapest for each domain. The
/// sizes are those of the written-out recipes.
pub fn compile(
    program: &AnalyzedSidProgram,
    capabilities: &TargetCapabilities,
    budget: StateBudget,
    sizes: &[SerializedSize],
) -> (r: PertylizerLoweringPlan)
    requires
        countable(*program),
    ensures
        right_plan(r, *program, *capabilities, budget, sizes@),
        r.uncovered@ == Set::<StateDomain>::empty(),
{
    let required: Coverage = required_domains(program);
    let list: Vec<RepresentationCandidate> = build_candidates(program, sizes);
    let mut decisions: Vec<CandidateDecision> = Vec::new();
    let mut ok: Vec<bool> = Vec::new();
    let mut i: usize = 0;
    while i < list.len()
        invariant
            i <= list@.len(),
            decisions@.len() == i,
            ok@.len() == i,
            forall|j: int|
                0 <= j < i ==> right_decision(
                    list@[j],
                    *capabilities,
                    budget,
                    #[trigger] decisions@[j],
                ),
            forall|j: int| 0 <= j < i ==> #[trigger] ok@[j] == decisions@[j].accepted,
        decreases list@.len() - i,
    {
        let decision: CandidateDecision = decide(&list[i], capabilities, budget);
        ok.push(decision.accepted);
        decisions.push(decision);
        i += 1;
    }
    let (selected, uncovered) = select(&list, &ok, &required);
    let plan: PertylizerLoweringPlan = PertylizerLoweringPlan {
        target: TargetRevision(capabilities.revision.0.clone()),
        required,
        candidates: list,
        decisions,
        selected,
        uncovered,
    };
    proof {
        same_options(
            list@,
            |i: int| ok@[i],
            |i: int| plan.decisions@[i].accepted,
            required@,
            selected,
            uncovered@,
        );
        compiling_covers_every_domain(plan, *program, *capabilities, budget, sizes@);
    }
    plan
}

proof fn same_options(
    cs: Seq<RepresentationCandidate>,
    f: spec_fn(int) -> bool,
    g: spec_fn(int) -> bool,
    required: Set<StateDomain>,
    selected: Selection,
    uncovered: Set<StateDomain>,
)
    requires
        right_selection(cs, f, required, selected, uncovered),
        forall|i: int| 0 <= i < cs.len() ==> #[trigger] f(i) == g(i),
    ensures
        right_selection(cs, g, required, selected, uncovered),
{
    assert forall|d: StateDomain, i: int| #[trigger]
        option_for(cs, g, d, i) == option_for(cs, f, d, i) by {
        if 0 <= i < cs.len() {
            assert(f(i) == g(i));
        }
    }
    assert forall|d: StateDomain|
        required.contains(d) implies right_choice(cs, g, d, #[trigger] selected.choice(d)) by {
        assert(right_choice(cs, f, d, selected.choice(d)));
        match selected.choice(d) {
            Some(id) => {
                let i = choose|i: int| #[trigger]
                    option_for(cs, f, d, i) && cs[i].id == id && forall|j: int| #[trigger]
                        option_for(cs, f, d, j) ==> !cheaper(cs[j], cs[i]);
                assert(option_for(cs, g, d, i));
            },
            None => {
                assert forall|i: int| !#[trigger] option_for(cs, g, d, i) by {
                    assert(!option_for(cs, f, d, i));
                }
            },
        }
    }
}

/// What the last decision about a candidate says; without one it is not
/// accepted.
pub open spec fn state_accepted(decisions: Seq<CandidateDecision>, id: CandidateId) -> bool
    decreases decisions.len(),
{
    if decisions.len() == 0 {
        false
    } else if decisions.last().candidate == id {
        decisions.last().accepted
    } else {
        state_accepted(decisions.drop_last(), id)
    }
}

/// What the last evaluation of a candidate says, if there is one.
pub open spec fn render_result(
    evaluations: Seq<CandidateRenderEvaluation>,
    id: CandidateId,
) -> Option<bool>
    decreases evaluations.len(),
{
    if evaluations.len() == 0 {
        None
    } else if evaluations.last().candidate == id {
        Some(evaluations.last().within_audio_budget)
    } else {
        render_result(evaluations.drop_last(), id)
    }
}

/// Why the render gate rejects a candidate, if it does. Only the baseline may
/// stay unrendered.
pub open spec fn gate_rejection(
    c: RepresentationCandidate,
    decisions: Seq<CandidateDecision>,
    evaluations: Seq<CandidateRenderEvaluation>,
) -> Option<RenderGateRejection> {
    if !state_accepted(decisions, c.id) {
        Some(RenderGateRejection::StateGateRejected)
    } else {
        match render_result(evaluations, c.id) {
            None => if c.render_requirement == RenderRequirement::Required {
                Some(RenderGateRejection::NotRendered)
            } else {
                None
            },
            Some(within) => if within {
                None
            } else {
                Some(RenderGateRejection::AudioBudgetExceeded)
            },
        }
    }
}

/// Whether some decision accepts the candidate.
pub open spec fn passes(decisions: Seq<RenderGateDecision>, id: CandidateId) -> bool {
    exists|i: int|
        0 <= i < decisions.len() && (#[trigger] decisions[i]).accepted && decisions[i].candidate
            == id
}

/// What the render gate makes of a plan.
pub open spec fn right_gating(
    r: RenderGatedSelection,
    plan: PertylizerLoweringPlan,
    evaluations: Seq<CandidateRenderEvaluation>,
) -> bool {
    &&& r.decisions@.len() == plan.candidates@.len()
    &&& forall|i: int|
        0 <= i < plan.candidates@.len() ==> {
            let c = plan.candidates@[i];
            let rejection = gate_rejection(c, plan.decisions@, evaluations);
            #[trigger] r.decisions@[i] == RenderGateDecision {
                candidate: c.id,
                accepted: rejection is None,
                rejection,
            }
        }
    &&& right_selection(
        plan.candidates@,
        |i: int| passes(r.decisions@, plan.candidates@[i].id),
        plan.required@,
        r.selected,
        r.uncovered@,
    )
}

fn was_accepted(decisions: &Vec<CandidateDecision>, id: CandidateId) -> (r: bool)
    ensures
        r == state_accepted(decisions@, id),
{
    let mut i: usize = decisions.len();
    assert(decisions@.take(i as int) =~= decisions@);
    while i > 0
        invariant
            i <= decisions@.len(),
            state_accepted(decisions@, id) == state_accepted(decisions@.take(i as int), id),
        decreases i,
    {
        assert(decisions@.take(i as int).drop_last() =~= decisions@.take(i - 1));
        i -= 1;
        if decisions[i].candidate == id {
            return decisions[i].accepted;
        }
    }
    false
}

fn rendered(evaluations: &[CandidateRenderEvaluation], id: CandidateId) -> (r: Option<bool>)
    ensures
        r == render_result(evaluations@, id),
{
    let mut i: usize = evaluations.len();
    assert(evaluations@.take(i as int) =~= evaluations@);
    while i > 0
        invariant
            i <= evaluations@.len(),
            render_result(evaluations@, id) == render_result(evaluations@.take(i as int), id),
        decreases i,
    {
        assert(evaluations@.take(i as int).drop_last() =~= evaluations@.take(i - 1));
        i -= 1;
        if evaluations[i].candidate == id {
            return Some(evaluations[i].within_audio_budget);
        }
    }
    None
}

fn has_passed(decisions: &Vec<RenderGateDecision>, id: CandidateId) -> (r: bool)
    ensures
        r == passes(decisions@, id),
{
    let mut i: usize = 0;
    while i < decisions.len()
        invariant
            i <= decisions@.len(),
            forall|j: int|
                0 <= j < i ==> !((#[trigger] decisions@[j]).accepted && decisions@[j].candidate
                    == id),
        decreases decisions@.len() - i,
    {
        if decisions[i].accepted && decisions[i].candidate == id {
            assert(decisions@[i as int].accepted);
            return true;
        }
        i += 1;
    }
    false
}

/// Lets only those state-valid candidates through whose rendering is close
/// enough, and chooses the cheapest of them for each domain.
pub fn apply_render_gate(
    plan: &PertylizerLoweringPlan,
    evaluations: &[CandidateRenderEvaluation],
) -> (r: RenderGatedSelection)
    ensures
        right_gating(r, *plan, evaluations@),
{
    let mut decisions: Vec<RenderGateDecision> = Vec::new();
    let mut i: usize = 0;
    while i < plan.candidates.len()
        invariant
            i <= plan.candidates@.len(),
            decisions@.len() == i,
            forall|j: int|
                0 <= j < i ==> {
                    let c = plan.candidates@[j];
                    let rejection = gate_rejection(c, plan.decisions@, evaluations@);
                    #[trigger] decisions@[j] == RenderGateDecision {
                        candidate: c.id,
                        accepted: rejection is None,
                        rejection,
                    }
                },
        decreases plan.candidates@.len() - i,
    {
        let c: &RepresentationCandidate = &plan.candidates[i];
        let rejection: Option<RenderGateRejection> = if !was_accepted(&plan.decisions, c.id) {
            Some(RenderGateRejection::StateGateRejected)
        } else {
            match rendered(evaluations, c.id) {
                None => if c.render_requirement == RenderRequirement::Required {
                    Some(RenderGateRejection::NotRendered)
                } else {
                    None
                },
                Some(within) => if within {
                    None
                } else {
                    Some(RenderGateRejection::AudioBudgetExceeded)
                },
            }
        };
        decisions.push(
            RenderGateDecision { candidate: c.id, accepted: rejection.is_none(), rejection },
        );
        i += 1;
    }
    let mut ok: Vec<bool> = Vec::new();
    let mut k: usize = 0;
    while k < plan.candidates.len()
        invariant
            k <= plan.candidates@.len(),
            ok@.len() == k,
            forall|j: int|
                0 <= j < k ==> #[trigger] ok@[j] == passes(decisions@, plan.candidates@[j].id),
        decreases plan.candidates@.len() - k,
    {
        ok.push(has_passed(&decisions, plan.candidates[k].id));
        k += 1;
    }
    let (selected, uncovered) = select(&plan.candidates, &ok, &plan.required);
    proof {
        same_options(
            plan.candidates@,
            |i: int| ok@[i],
            |i: int| passes(decisions@, plan.candidates@[i].id),
            plan.required@,
            selected,
            uncovered@,
        );
    }
    RenderGatedSelection { decisions, selected, uncovered }
}

/// Compiles a program and gates the result by the renderings.
pub fn select_automatic(
    program: &AnalyzedSidProgram,
    capabilities: &TargetCapabilities,
    state_budget: StateBudget,
    sizes: &[SerializedSize],
    evaluations: &[CandidateRenderEvaluation],
) -> (r: AutomaticSelection)
    requires
        countable(*program),
    ensures
        right_plan(r.state, *program, *capabilities, state_budget, sizes@),
        r.state.uncovered@ == Set::<StateDomain>::empty(),
        right_gating(r.render, r.state, evaluations@),
        r.render.uncovered@ == uncovered_domains(
            *program,
            *capabilities,
            state_budget,
            evaluations@,
        ),
{
    let state: PertylizerLoweringPlan = compile(program, capabilities, state_budget, sizes);
    let render: RenderGatedSelection = apply_render_gate(&state, evaluations);
    proof {
        gating_leaves_the_rest_uncovered(
            render,
            state,
            *program,
            *capabilities,
            state_budget,
            sizes@,
            evaluations@,
        );
    }
    AutomaticSelection { state, render }
}

/// The render gate only ever narrows: whatever it selects covers its domain,
/// was accepted by state, and has a rendering within the budget unless it is
/// the unrendered baseline.
pub proof fn render_selection_is_state_valid(
    r: RenderGatedSelection,
    plan: PertylizerLoweringPlan,
    evaluations: Seq<CandidateRenderEvaluation>,
    d: StateDomain,
    id: CandidateId,
)
    requires
        right_gating(r, plan, evaluations),
        r.selected.choice(d) == Some(id),
    ensures
        state_accepted(plan.decisions@, id),
        render_result(evaluations, id) != Some(false),
        exists|i: int|
            0 <= i < plan.candidates@.len() && (#[trigger] plan.candidates@[i]).id == id
                && plan.candidates@[i].coverage@.contains(d),
{
    let cs = plan.candidates@;
    let ok = |i: int| passes(r.decisions@, cs[i].id);
    assert(r.selected.choice(d) is Some);
    assert(plan.required@.contains(d));
    assert(right_choice(cs, ok, d, r.selected.choice(d)));
    let i = choose|i: int| #[trigger]
        option_for(cs, ok, d, i) && cs[i].id == id && forall|j: int| #[trigger]
            option_for(cs, ok, d, j) ==> !cheaper(cs[j], cs[i]);
    assert(option_for(cs, ok, d, i));
    assert(ok(i));
    let k = choose|k: int|
        0 <= k < r.decisions@.len() && (#[trigger] r.decisions@[k]).accepted
            && r.decisions@[k].candidate == cs[i].id;
    assert(gate_rejection(cs[k], plan.decisions@, evaluations) is None);
}

proof fn accepted_by_place(
    decisions: Seq<CandidateDecision>,
    n: int,
    i: int,
)
    requires
        0 <= i < n <= decisions.len(),
        forall|j: int| 0 <= j < decisions.len() ==> (#[trigger] decisions[j]).candidate.0 == j,
    ensures
        state_accepted(decisions.take(n), CandidateId(i as u64)) == decisions[i].accepted,
    decreases n,
{
    let t = decisions.take(n);
    assert(decisions[i].candidate.0 == i);
    assert(decisions[n - 1].candidate.0 == n - 1);
    if i < n - 1 {
        assert(t.drop_last() =~= decisions.take(n - 1));
        accepted_by_place(decisions, n - 1, i);
    }
}

/// Without any rendering, everything is represented by the baseline: the last
/// candidate, dense automation, which needs no rendering and covers every
/// domain that the program needs.
pub proof fn unrendered_programs_use_the_baseline(
    r: RenderGatedSelection,
    plan: PertylizerLoweringPlan,
    program: AnalyzedSidProgram,
    capabilities: TargetCapabilities,
    budget: StateBudget,
    sizes: Seq<SerializedSize>,
    d: StateDomain,
)
    requires
        right_plan(plan, program, capabilities, budget, sizes),
        right_gating(r, plan, Seq::empty()),
    ensures
        needed_domains(program).contains(d) ==> r.selected.choice(d) == Some(
            CandidateId((program_drafts(program).len() - 1) as u64),
        ),
        !needed_domains(program).contains(d) ==> r.selected.choice(d) is None,
        !r.uncovered@.contains(d),
{
    let cs = plan.candidates@;
    let drafts = program_drafts(program);
    let last = drafts.len() - 1;
    let none = Seq::<CandidateRenderEvaluation>::empty();
    let ok = |i: int| passes(r.decisions@, cs[i].id);
    assert(plan.candidates.len() == cs.len());
    baseline_is_accepted(cs[last], program, capabilities, budget, last, size_at(sizes, last));
    assert forall|j: int| 0 <= j < plan.decisions@.len() implies (
    #[trigger] plan.decisions@[j]).candidate.0 == j by {
        assert(right_decision(cs[j], capabilities, budget, plan.decisions@[j]));
        assert(candidates::realizes(cs[j], drafts[j], program, j, size_at(sizes, j)));
    }
    assert(plan.decisions@.take(plan.decisions@.len() as int) =~= plan.decisions@);
    accepted_by_place(plan.decisions@, plan.decisions@.len() as int, last);
    assert(right_decision(cs[last], capabilities, budget, plan.decisions@[last]));
    assert(gate_rejection(cs[last], plan.decisions@, none) is None);
    assert(r.decisions@[last].accepted && r.decisions@[last].candidate == cs[last].id);
    assert(ok(last));
    assert forall|i: int| 0 <= i < last implies !(#[trigger] ok(i)) by {
        if ok(i) {
            let k = choose|k: int|
                0 <= k < r.decisions@.len() && (#[trigger] r.decisions@[k]).accepted
                    && r.decisions@[k].candidate == cs[i].id;
            assert(candidates::realizes(cs[k], drafts[k], program, k, size_at(sizes, k)));
            assert(candidates::realizes(cs[i], drafts[i], program, i, size_at(sizes, i)));
            assert(k == i);
            only_the_last_is_a_baseline(program, i);
            assert(gate_rejection(cs[i], plan.decisions@, none) is None);
            assert(cs[i].render_requirement == RenderRequirement::Required);
        }
    }
    if needed_domains(program).contains(d) {
        assert(right_choice(cs, ok, d, r.selected.choice(d)));
        assert(option_for(cs, ok, d, last));
        match r.selected.choice(d) {
            Some(id) => {
                let i = choose|i: int| #[trigger]
                    option_for(cs, ok, d, i) && cs[i].id == id && forall|j: int| #[trigger]
                        option_for(cs, ok, d, j) ==> !cheaper(cs[j], cs[i]);
                assert(option_for(cs, ok, d, i));
                assert(i == last);
                assert(candidates::realizes(
                    cs[last],
                    drafts[last],
                    program,
                    last,
                    size_at(sizes, last),
                ));
            },
            None => {},
        }
    }
}

/// Whether the draft at a place gets through: the target can do what it needs, it is
/// the baseline or fits the budget, and its rendering, if there is one, is close
/// enough. Only the baseline may stay unrendered.
pub open spec fn draft_passes(
    d: candidates::DraftView,
    place: int,
    capabilities: TargetCapabilities,
    budget: StateBudget,
    evaluations: Seq<CandidateRenderEvaluation>,
) -> bool {
    &&& unmet(d.requirements, capabilities).len() == 0
    &&& d.render == RenderRequirement::PinnedBaseline || d.residuals.fits(budget)
    &&& match render_result(evaluations, CandidateId(place as u64)) {
        None => d.render != RenderRequirement::Required,
        Some(within) => within,
    }
}

/// The domains of a program that no draft that gets through covers.
pub open spec fn uncovered_domains(
    program: AnalyzedSidProgram,
    capabilities: TargetCapabilities,
    budget: StateBudget,
    evaluations: Seq<CandidateRenderEvaluation>,
) -> Set<StateDomain> {
    Set::new(
        |d: StateDomain|
            needed_domains(program).contains(d) && forall|i: int|
                0 <= i < program_drafts(program).len() && #[trigger] draft_passes(
                    program_drafts(program)[i],
                    i,
                    capabilities,
                    budget,
                    evaluations,
                ) ==> !program_drafts(program)[i].coverage.contains(d),
    )
}

proof fn gate_passes_drafts(
    r: RenderGatedSelection,
    plan: PertylizerLoweringPlan,
    program: AnalyzedSidProgram,
    capabilities: TargetCapabilities,
    budget: StateBudget,
    sizes: Seq<SerializedSize>,
    evaluations: Seq<CandidateRenderEvaluation>,
    i: int,
)
    requires
        right_plan(plan, program, capabilities, budget, sizes),
        right_gating(r, plan, evaluations),
        0 <= i < plan.candidates@.len(),
    ensures
        passes(r.decisions@, plan.candidates@[i].id) == draft_passes(
            program_drafts(program)[i],
            i,
            capabilities,
            budget,
            evaluations,
        ),
{
    let cs = plan.candidates@;
    let drafts = program_drafts(program);
    assert forall|j: int| 0 <= j < plan.decisions@.len() implies (
    #[trigger] plan.decisions@[j]).candidate.0 == j by {
        assert(right_decision(cs[j], capabilities, budget, plan.decisions@[j]));
        assert(candidates::realizes(cs[j], drafts[j], program, j, size_at(sizes, j)));
    }
    assert(plan.decisions@.take(plan.decisions@.len() as int) =~= plan.decisions@);
    accepted_by_place(plan.decisions@, plan.decisions@.len() as int, i);
    assert(candidates::realizes(cs[i], drafts[i], program, i, size_at(sizes, i)));
    assert(right_decision(cs[i], capabilities, budget, plan.decisions@[i]));
    assert(cs[i].id == CandidateId(i as u64));
    assert(r.decisions@[i].accepted == (gate_rejection(cs[i], plan.decisions@, evaluations)
        is None));
    assert(r.decisions@[i].accepted == draft_passes(
        drafts[i],
        i,
        capabilities,
        budget,
        evaluations,
    ));
    if passes(r.decisions@, cs[i].id) {
        let k = choose|k: int|
            0 <= k < r.decisions@.len() && (#[trigger] r.decisions@[k]).accepted
                && r.decisions@[k].candidate == cs[i].id;
        assert(candidates::realizes(cs[k], drafts[k], program, k, size_at(sizes, k)));
        assert(k == i);
    }
}

/// What stays uncovered depends on the program, the target, the budget and the
/// renderings alone: the domains that no draft that gets through covers.
pub proof fn gating_leaves_the_rest_uncovered(
    r: RenderGatedSelection,
    plan: PertylizerLoweringPlan,
    program: AnalyzedSidProgram,
    capabilities: TargetCapabilities,
    budget: StateBudget,
    sizes: Seq<SerializedSize>,
    evaluations: Seq<CandidateRenderEvaluation>,
)
    requires
        right_plan(plan, program, capabilities, budget, sizes),
        right_gating(r, plan, evaluations),
    ensures
        r.uncovered@ == uncovered_domains(program, capabilities, budget, evaluations),
{
    let cs = plan.candidates@;
    let drafts = program_drafts(program);
    let ok = |i: int| passes(r.decisions@, cs[i].id);
    assert forall|d: StateDomain| r.uncovered@.contains(d) == uncovered_domains(
        program,
        capabilities,
        budget,
        evaluations,
    ).contains(d) by {
        if needed_domains(program).contains(d) {
            assert(right_choice(cs, ok, d, r.selected.choice(d)));
            if r.uncovered@.contains(d) {
                assert forall|i: int|
                    0 <= i < drafts.len() && #[trigger] draft_passes(
                        drafts[i],
                        i,
                        capabilities,
                        budget,
                        evaluations,
                    ) implies !drafts[i].coverage.contains(d) by {
                    gate_passes_drafts(
                        r,
                        plan,
                        program,
                        capabilities,
                        budget,
                        sizes,
                        evaluations,
                        i,
                    );
                    assert(candidates::realizes(cs[i], drafts[i], program, i, size_at(sizes, i)));
                    assert(ok(i));
                    assert(!option_for(cs, ok, d, i));
                }
            } else {
                let i = choose|i: int| #[trigger]
                    option_for(cs, ok, d, i) && cs[i].id == r.selected.choice(d)->Some_0;
                assert(option_for(cs, ok, d, i));
                assert(ok(i));
                gate_passes_drafts(r, plan, program, capabilities, budget, sizes, evaluations, i);
                assert(candidates::realizes(cs[i], drafts[i], program, i, size_at(sizes, i)));
                assert(draft_passes(drafts[i], i, capabilities, budget, evaluations));
            }
        }
    }
    assert(r.uncovered@ =~= uncovered_domains(program, capabilities, budget, evaluations));
}

/// A program of which nothing was rendered is covered.
pub proof fn unrendered_programs_are_covered(
    program: AnalyzedSidProgram,
    capabilities: TargetCapabilities,
    budget: StateBudget,
)
    ensures
        uncovered_domains(program, capabilities, budget, Seq::empty()) == Set::<
            StateDomain,
        >::empty(),
{
    let drafts = program_drafts(program);
    let last = drafts.len() - 1;
    assert(drafts[last] == automation_drafts(program)[1]);
    assert(draft_passes(drafts[last], last, capabilities, budget, Seq::empty()));
    assert(uncovered_domains(program, capabilities, budget, Seq::empty()) =~= Set::empty());
}

proof fn only_the_last_is_a_baseline(program: AnalyzedSidProgram, i: int)
    requires
        0 <= i < program_drafts(program).len() - 1,
    ensures
        program_drafts(program)[i].render == RenderRequirement::Required,
{
    let a = candidates::envelope_drafts(program);
    let b = candidates::pitch_drafts(program);
    let c = candidates::modulator_drafts(program);
    let d = candidates::causal_drafts(program);
    let e = candidates::script_drafts(program);
    let f = candidates::chip_drafts(program);
    let g = automation_drafts(program);
    assert(forall|k: int| 0 <= k < a.len() ==> (#[trigger] a[k]).render
        == RenderRequirement::Required);
    assert(forall|k: int| 0 <= k < b.len() ==> (#[trigger] b[k]).render
        == RenderRequirement::Required);
    assert(forall|k: int| 0 <= k < c.len() ==> (#[trigger] c[k]).render
        == RenderRequirement::Required);
    assert(forall|k: int| 0 <= k < d.len() ==> (#[trigger] d[k]).render
        == RenderRequirement::Required);
    assert(forall|k: int| 0 <= k < e.len() ==> (#[trigger] e[k]).render
        == RenderRequirement::Required);
    assert(forall|k: int| 0 <= k < f.len() ==> (#[trigger] f[k]).render
        == RenderRequirement::Required);
    assert(g[0].render == RenderRequirement::Required);
}

} // verus!
