//! The candidates that a program gives rise to.

use crate::analysis::program::{
    AnalyzedSidProgram, CausalDependency, ContinuousOccurrence, ContinuousOccurrenceId,
    EventTimestampQuality, InterpretedSignalSource, ProgramDefinitionId, ProgramOccurrenceId,
    ProgramReuseGroupId, SignalInterpretation, SignalInterpretationId, SignalInterpretationKind,
    SoundRegion, SoundRegionId, VoiceId,
};
use super::evidence::{
    continuation_edge_count, continuation_total, count_where, count_where_bounds, countable,
    cross_voice_edge_count, cross_voice_total, detected_digi_points, digi_stream, digi_total,
    eligible, eligible_causal_dependency, eligible_dependencies, eligible_total, envelope_points,
    envelope_total, filter_total, has_digi_stream, history_sensitive_retriggers, history_total,
    noise_point_total, noise_points, noise_selected, noise_start_recipes, noise_starts_of,
    onset_programs, onset_views, onsets_of, oscillator_start_recipes, oscillator_starts_of,
    primary_events, primary_total, steps_total, waveform_change_total, waveform_changes,
    waveform_points, waveform_total, NoiseStartRecipe, OnsetProgramRecipe, OnsetView,
    OscillatorStartRecipe,
};
use super::{
    AutomationDensity, BehaviorCapability, CandidateId, CandidateRecipe, CandidateScope,
    CentsResidual, Coverage, EditCost, EditabilityClass, FallbackReason, GraphComplexity,
    KnownLoss, LevelResidual, ModuleType, RecipePointCount, RenderRequirement,
    RepresentationCandidate, RepresentationClass, Requirement, SerializedSize, StateDomain,
    StateMismatchCount, StateResiduals,
};
use vstd::prelude::*;

verus! {

/// A requirement as plain values.
pub enum RequirementView {
    Module(Seq<char>),
    Behavior(BehaviorCapability),
}

impl Requirement {
    /// The requirement as plain values.
    pub open spec fn view(self) -> RequirementView {
        match self {
            Requirement::Module(m) => RequirementView::Module(m.0@),
            Requirement::Behavior(b) => RequirementView::Behavior(b),
        }
    }
}

/// Requirements as plain values.
pub open spec fn requirement_views(s: Seq<Requirement>) -> Seq<RequirementView> {
    s.map_values(|r: Requirement| r.view())
}

/// A recipe as plain values.
pub enum RecipeView {
    NativeAdsr { points: u32, entries: u64 },
    NormalizedAdsr { points: u32, entries: u64 },
    Mseg { points: u32, entries: u64 },
    GateDrivenEnvelope { points: u32 },
    Arpeggiator { interpretations: Seq<SignalInterpretationId> },
    Glide { interpretations: Seq<SignalInterpretationId> },
    Lfo { interpretations: Seq<SignalInterpretationId> },
    KineticModulator { interpretations: Seq<SignalInterpretationId> },
    DirectCv { count: u32 },
    ModMatrix { count: u32 },
    Script { interpretations: Seq<SignalInterpretationId> },
    SidOscillator { points: u32 },
    SidSequence {
        definitions: Seq<ProgramDefinitionId>,
        occurrences: Seq<ContinuousOccurrenceId>,
        reuse_groups: Seq<ProgramReuseGroupId>,
        onsets: Seq<OnsetView>,
        oscillators: Seq<OscillatorStartRecipe>,
        noises: Seq<NoiseStartRecipe>,
    },
    SharedFilter { points: u32, edges: u32 },
    Automation { dense: bool, points: u32, fallbacks: Seq<FallbackReason> },
    Sampler { points: u32 },
}

impl CandidateRecipe {
    /// The recipe as plain values.
    pub open spec fn view(self) -> RecipeView {
        match self {
            CandidateRecipe::NativeAdsr { envelope_points, history_sensitive_entries } =>
                RecipeView::NativeAdsr {
                points: envelope_points.0,
                entries: history_sensitive_entries.0,
            },
            CandidateRecipe::NormalizedAdsr { envelope_points, history_sensitive_entries } =>
                RecipeView::NormalizedAdsr {
                points: envelope_points.0,
                entries: history_sensitive_entries.0,
            },
            CandidateRecipe::Mseg { envelope_points, reset_from_current_entries } =>
                RecipeView::Mseg {
                points: envelope_points.0,
                entries: reset_from_current_entries.0,
            },
            CandidateRecipe::GateDrivenEnvelope { envelope_points } =>
                RecipeView::GateDrivenEnvelope { points: envelope_points.0 },
            CandidateRecipe::Arpeggiator { interpretations } => RecipeView::Arpeggiator {
                interpretations: interpretations@,
            },
            CandidateRecipe::Glide { interpretations } => RecipeView::Glide {
                interpretations: interpretations@,
            },
            CandidateRecipe::Lfo { interpretations } => RecipeView::Lfo {
                interpretations: interpretations@,
            },
            CandidateRecipe::KineticModulator { interpretations } =>
                RecipeView::KineticModulator { interpretations: interpretations@ },
            CandidateRecipe::DirectCv { dependency_count } => RecipeView::DirectCv {
                count: dependency_count.0,
            },
            CandidateRecipe::ModMatrix { dependency_count } => RecipeView::ModMatrix {
                count: dependency_count.0,
            },
            CandidateRecipe::Script { interpretations } => RecipeView::Script {
                interpretations: interpretations@,
            },
            CandidateRecipe::SidOscillator { waveform_points } => RecipeView::SidOscillator {
                points: waveform_points.0,
            },
            CandidateRecipe::SidSequence {
                definitions,
                occurrences,
                reuse_groups,
                onset_programs,
                oscillator_starts,
                noise_starts,
            } => RecipeView::SidSequence {
                definitions: definitions@,
                occurrences: occurrences@,
                reuse_groups: reuse_groups@,
                onsets: onset_views(onset_programs@),
                oscillators: oscillator_starts@,
                noises: noise_starts@,
            },
            CandidateRecipe::SharedFilter { control_points, topology_edges } =>
                RecipeView::SharedFilter { points: control_points.0, edges: topology_edges.0 },
            CandidateRecipe::Automation { dense, control_points, fallbacks } =>
                RecipeView::Automation { dense, points: control_points.0, fallbacks: fallbacks@ },
            CandidateRecipe::Sampler { sample_points } => RecipeView::Sampler {
                points: sample_points.0,
            },
        }
    }
}

/// The scope of a candidate as plain values.
pub struct ScopeView {
    pub voices: Seq<VoiceId>,
    pub regions: Seq<SoundRegionId>,
    pub definitions: Seq<ProgramDefinitionId>,
    pub occurrences: Seq<ProgramOccurrenceId>,
    pub continuous_occurrences: Seq<ContinuousOccurrenceId>,
    pub reuse_groups: Seq<ProgramReuseGroupId>,
    pub interpretations: Seq<SignalInterpretationId>,
}

impl CandidateScope {
    /// The scope as plain values.
    pub open spec fn view(self) -> ScopeView {
        ScopeView {
            voices: self.voices@,
            regions: self.regions@,
            definitions: self.definitions@,
            occurrences: self.occurrences@,
            continuous_occurrences: self.continuous_occurrences@,
            reuse_groups: self.reuse_groups@,
            interpretations: self.interpretations@,
        }
    }
}

/// Whether a program has signals of a voice.
pub open spec fn has_voice(p: AnalyzedSidProgram, v: VoiceId) -> bool {
    exists|i: int| 0 <= i < p.voices@.len() && (#[trigger] p.voices@[i]).voice == v
}

/// The voices of a program with numbers below `k`, in ascending order, each once.
pub open spec fn voices_below(p: AnalyzedSidProgram, k: int) -> Seq<VoiceId>
    decreases k,
{
    if k <= 0 {
        Seq::empty()
    } else {
        let before = voices_below(p, k - 1);
        let v = VoiceId((k - 1) as u8);
        if has_voice(p, v) {
            before.push(v)
        } else {
            before
        }
    }
}

/// Whether voices come in ascending order, each once.
pub open spec fn ascending(voices: Seq<VoiceId>) -> bool {
    forall|i: int, j: int| 0 <= i < j < voices.len() ==> voices[i].0 < voices[j].0
}

proof fn ascending_voices_are_listed(p: AnalyzedSidProgram, voices: Seq<VoiceId>, k: int)
    requires
        0 <= k <= 256,
        ascending(voices),
        forall|x: VoiceId| #[trigger] voices.contains(x) <==> has_voice(p, x) && x.0 < k,
    ensures
        voices == voices_below(p, k),
    decreases k,
{
    if k == 0 {
        if voices.len() > 0 {
            assert(voices.contains(voices[0]));
        }
    } else {
        let v = VoiceId((k - 1) as u8);
        if has_voice(p, v) {
            assert(voices.contains(v));
            let at = choose|i: int| 0 <= i < voices.len() && voices[i] == v;
            let last = voices.len() - 1;
            assert(voices.contains(voices[last]));
            assert(at == last);
            let fewer = voices.drop_last();
            assert forall|x: VoiceId| #[trigger] fewer.contains(x) <==> has_voice(p, x) && x.0 < k
                - 1 by {
                if fewer.contains(x) {
                    let i = choose|i: int| 0 <= i < fewer.len() && fewer[i] == x;
                    assert(voices[i] == x);
                    assert(voices.contains(x));
                    assert(voices[i].0 < voices[last].0);
                }
                if has_voice(p, x) && x.0 < k - 1 {
                    assert(voices.contains(x));
                    let i = choose|i: int| 0 <= i < voices.len() && voices[i] == x;
                    assert(fewer[i] == x);
                }
            }
            ascending_voices_are_listed(p, fewer, k - 1);
            assert(voices =~= fewer.push(v));
        } else {
            assert forall|x: VoiceId| #[trigger] voices.contains(x) <==> has_voice(p, x) && x.0 < k
                - 1 by {
                if x.0 == k - 1 {
                    assert(x == v);
                }
            }
            ascending_voices_are_listed(p, voices, k - 1);
        }
    }
}

/// Everything in a program that candidates apply to.
pub open spec fn program_scope(p: AnalyzedSidProgram) -> ScopeView {
    ScopeView {
        voices: voices_below(p, 256),
        regions: p.regions@.map_values(|r: SoundRegion| r.id),
        definitions: p.definitions@,
        occurrences: p.occurrences@,
        continuous_occurrences: p.continuous@.map_values(|o: ContinuousOccurrence| o.id),
        reuse_groups: p.reuse_groups@,
        interpretations: p.interpretations@.map_values(|i: SignalInterpretation| i.id),
    }
}

/// A candidate before it has its place and its size.
pub struct DraftView {
    pub class: RepresentationClass,
    pub coverage: Set<StateDomain>,
    pub requirements: Seq<RequirementView>,
    pub losses: Seq<KnownLoss>,
    pub editability: EditabilityClass,
    pub graph: u32,
    pub density: u32,
    pub residuals: StateResiduals,
    pub render: RenderRequirement,
    pub recipe: RecipeView,
}

/// The place of a loss in their order.
pub open spec fn loss_rank(l: KnownLoss) -> int {
    match l {
        KnownLoss::Exact => 0,
        KnownLoss::TimingBounded => 1,
        KnownLoss::StateApproximation => 2,
        KnownLoss::TopologyApproximation => 3,
        KnownLoss::RenderedFallback => 4,
    }
}

/// The greatest of the losses; none is exact.
pub open spec fn greatest_loss(losses: Seq<KnownLoss>) -> KnownLoss
    decreases losses.len(),
{
    if losses.len() == 0 {
        KnownLoss::Exact
    } else {
        let before = greatest_loss(losses.drop_last());
        if loss_rank(losses.last()) >= loss_rank(before) {
            losses.last()
        } else {
            before
        }
    }
}

/// Whether a candidate is the given draft at the given place, with the given
/// recipe size.
pub open spec fn realizes(
    c: RepresentationCandidate,
    d: DraftView,
    p: AnalyzedSidProgram,
    place: int,
    size: u64,
) -> bool {
    &&& c.id.0 == place
    &&& c.class == d.class
    &&& c.coverage@ == d.coverage
    &&& requirement_views(c.requirements@) == d.requirements
    &&& c.known_losses@ == d.losses
    &&& c.cost.known_loss == greatest_loss(d.losses)
    &&& c.cost.editability == d.editability
    &&& c.cost.graph_complexity.0 == d.graph
    &&& c.cost.automation_density.0 == d.density
    &&& c.cost.serialized_size.0 == size
    &&& c.residuals == d.residuals
    &&& c.render_requirement == d.render
    &&& c.scope.view() == program_scope(p)
    &&& ascending(c.scope.voices@)
    &&& c.recipe.view() == d.recipe
}

/// A module requirement.
pub open spec fn needs(name: Seq<char>) -> RequirementView {
    RequirementView::Module(name)
}

/// A behaviour requirement.
pub open spec fn behaves(b: BehaviorCapability) -> RequirementView {
    RequirementView::Behavior(b)
}

/// A list of one element, or none.
pub open spec fn only_if<A>(condition: bool, a: A) -> Seq<A> {
    if condition {
        seq![a]
    } else {
        Seq::empty()
    }
}

/// A draft that has to be rendered, without automation and without known
/// losses.
pub open spec fn plain_draft(
    class: RepresentationClass,
    coverage: Set<StateDomain>,
    requirements: Seq<RequirementView>,
    editability: EditabilityClass,
    graph: u32,
    recipe: RecipeView,
) -> DraftView {
    DraftView {
        class,
        coverage,
        requirements,
        losses: Seq::empty(),
        editability,
        graph,
        density: 0,
        residuals: StateResiduals::none(),
        render: RenderRequirement::Required,
        recipe,
    }
}

/// The amplitude of a voice and the retriggering of its gate.
pub open spec fn envelope_domains() -> Set<StateDomain> {
    Set::empty().insert(StateDomain::Amplitude).insert(StateDomain::GateRetrigger)
}

/// Residuals of envelopes that cannot begin an attack from where they are.
pub open spec fn history_residuals(p: AnalyzedSidProgram) -> StateResiduals {
    StateResiduals {
        gate_retrigger: StateMismatchCount(history_total(p) as u64),
        ..StateResiduals::none()
    }
}

/// The four envelope candidates.
pub open spec fn envelope_drafts(p: AnalyzedSidProgram) -> Seq<DraftView> {
    let points = envelope_total(p) as u32;
    let entries = history_total(p) as u64;
    let native = plain_draft(
        RepresentationClass::NativeAdsr,
        envelope_domains(),
        seq![needs("envelope"@)],
        EditabilityClass::Native,
        1,
        RecipeView::NativeAdsr { points, entries },
    );
    let normalized = plain_draft(
        RepresentationClass::NormalizedAdsr,
        envelope_domains(),
        seq![needs("envelope"@)],
        EditabilityClass::Native,
        1,
        RecipeView::NormalizedAdsr { points, entries },
    );
    let mseg = plain_draft(
        RepresentationClass::Mseg,
        envelope_domains(),
        seq![needs("mseg"@)],
        EditabilityClass::Structured,
        1,
        RecipeView::Mseg { points, entries },
    );
    let gated = plain_draft(
        RepresentationClass::Script,
        envelope_domains(),
        seq![
            needs("script"@),
            needs("mod_matrix"@),
            behaves(BehaviorCapability::GateRetrigger),
            behaves(BehaviorCapability::EnvelopeStateInitialization),
        ],
        EditabilityClass::Scripted,
        2,
        RecipeView::GateDrivenEnvelope { points },
    );
    seq![
        DraftView { residuals: history_residuals(p), ..native },
        DraftView { residuals: history_residuals(p), ..normalized },
        DraftView { residuals: history_residuals(p), ..mseg },
        gated,
    ]
}

/// The ids of the interpretations that satisfy a predicate, in order.
pub open spec fn ids_where(
    s: Seq<SignalInterpretation>,
    f: spec_fn(SignalInterpretation) -> bool,
) -> Seq<SignalInterpretationId>
    decreases s.len(),
{
    if s.len() == 0 {
        Seq::empty()
    } else if f(s.last()) {
        ids_where(s.drop_last(), f).push(s.last().id)
    } else {
        ids_where(s.drop_last(), f)
    }
}

/// Which interpretations a candidate is made of.
#[derive(Debug, Clone, Copy, PartialEq, Eq, Structural)]
pub enum Choice {
    PitchPeriodic,
    PitchRamp,
    Periodic,
    Ramp,
    Tabular,
}

impl Choice {
    /// Whether an interpretation belongs to the choice.
    pub open spec fn includes(self, i: SignalInterpretation) -> bool {
        match self {
            Choice::PitchPeriodic => i.source == InterpretedSignalSource::VoiceFrequency && i.kind
                == SignalInterpretationKind::Periodic,
            Choice::PitchRamp => i.source == InterpretedSignalSource::VoiceFrequency && i.kind
                == SignalInterpretationKind::Ramp,
            Choice::Periodic => i.kind == SignalInterpretationKind::Periodic,
            Choice::Ramp => i.kind == SignalInterpretationKind::Ramp,
            Choice::Tabular => tabular(i),
        }
    }
}

/// Whether a signal is followed step by step.
pub open spec fn tabular(i: SignalInterpretation) -> bool {
    i.kind == SignalInterpretationKind::Table || i.kind == SignalInterpretationKind::BoundedScript
}

/// The ids that belong to a choice.
pub open spec fn chosen_ids(p: AnalyzedSidProgram, c: Choice) -> Seq<SignalInterpretationId> {
    ids_where(p.interpretations@, |i: SignalInterpretation| c.includes(i))
}

/// The domain that a signal belongs to.
pub open spec fn source_domain(s: InterpretedSignalSource) -> StateDomain {
    match s {
        InterpretedSignalSource::VoiceFrequency => StateDomain::Pitch,
        InterpretedSignalSource::VoicePulseWidth => StateDomain::PulseWidth,
        InterpretedSignalSource::ChipCutoff => StateDomain::Filter,
        InterpretedSignalSource::MasterVolume => StateDomain::Amplitude,
        InterpretedSignalSource::EnvelopeLevel => StateDomain::Amplitude,
    }
}

/// The domains of the interpretations with one of the ids.
pub open spec fn interpretation_domains(
    p: AnalyzedSidProgram,
    ids: Seq<SignalInterpretationId>,
) -> Set<StateDomain> {
    Set::new(
        |d: StateDomain|
            exists|i: int|
                0 <= i < p.interpretations@.len() && ids.contains(
                    (#[trigger] p.interpretations@[i]).id,
                ) && source_domain(p.interpretations@[i].source) == d,
    )
}

/// The candidates made of interpretations, each only if there are any.
pub open spec fn pitch_drafts(p: AnalyzedSidProgram) -> Seq<DraftView> {
    let arpeggios = chosen_ids(p, Choice::PitchPeriodic);
    let glides = chosen_ids(p, Choice::PitchRamp);
    only_if(
        arpeggios.len() > 0,
        plain_draft(
            RepresentationClass::Arpeggiator,
            Set::empty().insert(StateDomain::Pitch),
            Seq::empty(),
            EditabilityClass::Native,
            1,
            RecipeView::Arpeggiator { interpretations: arpeggios },
        ),
    ) + only_if(
        glides.len() > 0,
        plain_draft(
            RepresentationClass::Glide,
            Set::empty().insert(StateDomain::Pitch),
            Seq::empty(),
            EditabilityClass::Native,
            1,
            RecipeView::Glide { interpretations: glides },
        ),
    )
}

/// The candidates that modulate by periodic signals and by ramps.
pub open spec fn modulator_drafts(p: AnalyzedSidProgram) -> Seq<DraftView> {
    let periodic = chosen_ids(p, Choice::Periodic);
    let ramps = chosen_ids(p, Choice::Ramp);
    only_if(
        periodic.len() > 0,
        plain_draft(
            RepresentationClass::Lfo,
            interpretation_domains(p, periodic),
            seq![needs("lfo"@), behaves(BehaviorCapability::GateRetrigger)],
            EditabilityClass::Native,
            1,
            RecipeView::Lfo { interpretations: periodic },
        ),
    ) + only_if(
        ramps.len() > 0,
        plain_draft(
            RepresentationClass::KineticModulator,
            interpretation_domains(p, ramps),
            seq![needs("kinetic_modulator"@)],
            EditabilityClass::Structured,
            1,
            RecipeView::KineticModulator { interpretations: ramps },
        ),
    )
}

/// The domains that a register belongs to.
pub open spec fn register_domains(register: u8) -> Set<StateDomain> {
    let e = Set::<StateDomain>::empty();
    if register < 0x15 {
        let offset = register % 7;
        if offset <= 1 {
            e.insert(StateDomain::Pitch)
        } else if offset <= 3 {
            e.insert(StateDomain::PulseWidth)
        } else if offset == 4 {
            e.insert(StateDomain::Waveform).insert(StateDomain::CrossVoice)
        } else {
            e.insert(StateDomain::Amplitude)
        }
    } else if register <= 0x16 {
        e.insert(StateDomain::Filter)
    } else if register == 0x17 {
        e.insert(StateDomain::Filter).insert(StateDomain::Routing)
    } else if register == 0x18 {
        e.insert(StateDomain::Amplitude).insert(StateDomain::Filter).insert(StateDomain::Digi)
    } else {
        e
    }
}

/// Whether a dependency drives a register of a domain and is clear enough to be
/// wired up.
pub open spec fn drives(dep: CausalDependency, d: StateDomain) -> bool {
    eligible(dep) && exists|j: int|
        0 <= j < dep.consumers@.len() && register_domains(
            (#[trigger] dep.consumers@[j]).0,
        ).contains(d)
}

/// The domains that dependencies drive.
pub open spec fn causal_domains(p: AnalyzedSidProgram) -> Set<StateDomain> {
    Set::new(
        |d: StateDomain|
            exists|i: int| 0 <= i < p.dependencies@.len() && drives(#[trigger] p.dependencies@[i], d),
    )
}

/// The candidates that wire dependencies up.
pub open spec fn causal_drafts(p: AnalyzedSidProgram) -> Seq<DraftView> {
    let count = eligible_total(p) as u32;
    let direct = plain_draft(
        RepresentationClass::DirectCv,
        causal_domains(p),
        Seq::empty(),
        EditabilityClass::Structured,
        1,
        RecipeView::DirectCv { count },
    );
    let matrix = plain_draft(
        RepresentationClass::ModMatrix,
        causal_domains(p),
        seq![needs("mod_matrix"@)],
        EditabilityClass::Structured,
        count,
        RecipeView::ModMatrix { count },
    );
    if count > 0 {
        seq![direct, matrix]
    } else {
        Seq::empty()
    }
}

/// The candidate that scripts signals step by step.
pub open spec fn script_drafts(p: AnalyzedSidProgram) -> Seq<DraftView> {
    let scripts = chosen_ids(p, Choice::Tabular);
    only_if(
        scripts.len() > 0,
        plain_draft(
            RepresentationClass::Script,
            interpretation_domains(p, scripts),
            seq![needs("script"@)],
            EditabilityClass::Scripted,
            2,
            RecipeView::Script { interpretations: scripts },
        ),
    )
}

/// Whether an onset has a bounded time only.
pub open spec fn bounded_onset(onsets: Seq<OnsetView>) -> bool {
    exists|i: int|
        0 <= i < onsets.len() && (#[trigger] onsets[i]).timestamp_quality
            == EventTimestampQuality::InstructionStartBounded
}

/// What a register sequence needs of the target.
pub open spec fn sequence_requirements(p: AnalyzedSidProgram) -> Seq<RequirementView> {
    let oscillators = oscillator_starts_of(p.continuous@).len() > 0;
    seq![needs("sid_oscillator"@)] + only_if(
        onsets_of(p.events@).len() > 0,
        behaves(BehaviorCapability::CycleStampedControl),
    ) + only_if(
        continuation_total(p) > 0,
        behaves(BehaviorCapability::SequenceContinuation),
    ) + only_if(oscillators, behaves(BehaviorCapability::PhaseReset)) + only_if(
        oscillators,
        behaves(BehaviorCapability::OscillatorStateInitialization),
    ) + only_if(
        noise_starts_of(p.continuous@).len() > 0,
        behaves(BehaviorCapability::NoiseStateInitialization),
    ) + only_if(cross_voice_total(p) > 0, behaves(BehaviorCapability::LiveCrossVoice))
}

/// The candidates that use the target's own SID modules.
pub open spec fn chip_drafts(p: AnalyzedSidProgram) -> Seq<DraftView> {
    let oscillator = plain_draft(
        RepresentationClass::SidOscillator,
        Set::empty().insert(StateDomain::Waveform).insert(StateDomain::PulseWidth),
        seq![needs("sid_oscillator"@)],
        EditabilityClass::Native,
        1,
        RecipeView::SidOscillator { points: waveform_total(p) as u32 },
    );
    let sequence = plain_draft(
        RepresentationClass::SidSequence,
        Set::empty().insert(StateDomain::OnsetProgram).insert(StateDomain::GateRetrigger).insert(
            StateDomain::Waveform,
        ).insert(StateDomain::PulseWidth).insert(StateDomain::OscillatorContinuation).insert(
            StateDomain::NoiseContinuation,
        ).insert(StateDomain::CrossVoice),
        sequence_requirements(p),
        EditabilityClass::Native,
        3,
        RecipeView::SidSequence {
            definitions: p.definitions@,
            occurrences: program_scope(p).continuous_occurrences,
            reuse_groups: p.reuse_groups@,
            onsets: onsets_of(p.events@),
            oscillators: oscillator_starts_of(p.continuous@),
            noises: noise_starts_of(p.continuous@),
        },
    );
    let filter = plain_draft(
        RepresentationClass::SharedFilter,
        Set::empty().insert(StateDomain::Filter).insert(StateDomain::Routing),
        seq![
            needs("filter"@),
            behaves(BehaviorCapability::DynamicRouting),
            behaves(BehaviorCapability::ChipScopedFilter),
        ],
        EditabilityClass::Native,
        1,
        RecipeView::SharedFilter {
            points: filter_total(p) as u32,
            edges: p.chip.edges@.len() as u32,
        },
    );
    let sampler = plain_draft(
        RepresentationClass::Sampler,
        Set::empty().insert(StateDomain::Digi),
        seq![needs("sampler"@), behaves(BehaviorCapability::BundleSampleLoading)],
        EditabilityClass::Rendered,
        1,
        RecipeView::Sampler { points: digi_total(p) as u32 },
    );
    seq![
        DraftView {
            losses: seq![KnownLoss::StateApproximation],
            residuals: StateResiduals {
                waveform: StateMismatchCount(waveform_change_total(p) as u64),
                ..StateResiduals::none()
            },
            ..oscillator
        },
        DraftView {
            losses: only_if(bounded_onset(onsets_of(p.events@)), KnownLoss::TimingBounded),
            ..sequence
        },
        DraftView { density: p.chip.cutoff_points as u32, ..filter },
    ] + only_if(
        digi_stream(p),
        DraftView { losses: seq![KnownLoss::RenderedFallback], ..sampler },
    )
}

/// The steps of the step-by-step interpretations of a signal among the first
/// `n`.
pub open spec fn tabular_steps(p: AnalyzedSidProgram, n: int, s: InterpretedSignalSource) -> nat
    decreases n,
{
    if n <= 0 {
        0
    } else {
        let i = p.interpretations@[n - 1];
        tabular_steps(p, n - 1, s) + if tabular(i) && i.source == s {
            i.steps as nat
        } else {
            0
        }
    }
}

/// Whether one of the first `n` interpretations follows a signal step by step.
pub open spec fn tabular_source(p: AnalyzedSidProgram, n: int, s: InterpretedSignalSource) -> bool {
    exists|i: int|
        0 <= i < n && tabular(#[trigger] p.interpretations@[i]) && p.interpretations@[i].source == s
}

/// How far sparse automation is off.
pub open spec fn sparse_deviation(p: AnalyzedSidProgram) -> StateResiduals {
    let n = p.interpretations@.len() as int;
    StateResiduals {
        maximum_pitch: CentsResidual(
            if tabular_source(p, n, InterpretedSignalSource::VoiceFrequency) {
                100_000
            } else {
                0
            },
        ),
        maximum_level: LevelResidual(
            if tabular_source(p, n, InterpretedSignalSource::MasterVolume) || tabular_source(
                p,
                n,
                InterpretedSignalSource::EnvelopeLevel,
            ) {
                100
            } else {
                0
            },
        ),
        pulse_width: StateMismatchCount(
            tabular_steps(p, n, InterpretedSignalSource::VoicePulseWidth) as u64,
        ),
        filter: StateMismatchCount(
            tabular_steps(p, n, InterpretedSignalSource::ChipCutoff) as u64,
        ),
        waveform: StateMismatchCount(waveform_change_total(p) as u64),
        oscillator_continuation: StateMismatchCount(continuation_total(p) as u64),
        noise_continuation: StateMismatchCount(noise_point_total(p) as u64),
        cross_voice: StateMismatchCount(cross_voice_total(p) as u64),
        digi: StateMismatchCount(digi_total(p) as u32 as u64),
        ..StateResiduals::none()
    }
}

/// How far dense automation is off.
pub open spec fn dense_deviation(p: AnalyzedSidProgram) -> StateResiduals {
    StateResiduals {
        onset_program: StateMismatchCount(onsets_of(p.events@).len() as u64),
        gate_retrigger: StateMismatchCount(history_total(p) as u64),
        waveform: StateMismatchCount(waveform_change_total(p) as u64),
        oscillator_continuation: StateMismatchCount(continuation_total(p) as u64),
        noise_continuation: StateMismatchCount(noise_starts_of(p.continuous@).len() as u64),
        filter: StateMismatchCount(filter_total(p) as u32 as u64),
        routing: StateMismatchCount(p.chip.routing_points as u64),
        cross_voice: StateMismatchCount(cross_voice_total(p) as u64),
        digi: StateMismatchCount(digi_total(p) as u32 as u64),
        ..StateResiduals::none()
    }
}

/// Why a program has to fall back on automation.
pub open spec fn program_fallbacks(p: AnalyzedSidProgram) -> Seq<FallbackReason> {
    only_if(bounded_onset(onsets_of(p.events@)), FallbackReason::InstructionStartTiming) + only_if(
        history_total(p) > 0,
        FallbackReason::EnvelopeHistory,
    ) + only_if(continuation_total(p) > 0, FallbackReason::OscillatorContinuation) + only_if(
        noise_starts_of(p.continuous@).len() > 0,
        FallbackReason::NoiseContinuation,
    ) + only_if(
        p.chip.cutoff_points > 0 || p.chip.routing_points > 0,
        FallbackReason::VoiceLocalFilter,
    ) + only_if(cross_voice_total(p) > 0, FallbackReason::CrossVoiceTopology) + only_if(
        exists|i: int| 0 <= i < p.dependencies@.len() && !eligible(#[trigger] p.dependencies@[i]),
        FallbackReason::AmbiguousCausalModulation,
    ) + only_if(
        exists|i: int|
            0 <= i < p.dependencies@.len() && (#[trigger] p.dependencies@[i]).random_source,
        FallbackReason::RandomModulation,
    ) + only_if(digi_stream(p), FallbackReason::DigiUnsupported)
}

/// The domains that a program needs to have represented.
pub open spec fn needed_domains(p: AnalyzedSidProgram) -> Set<StateDomain> {
    Set::new(|d: StateDomain| needs_domain(p, d))
}

/// Whether a program needs a domain to be represented.
pub open spec fn needs_domain(p: AnalyzedSidProgram, d: StateDomain) -> bool {
    match d {
        StateDomain::Pitch => p.frame_count > 0,
        StateDomain::Amplitude => p.frame_count > 0,
        StateDomain::GateRetrigger => p.frame_count > 0,
        StateDomain::Waveform => p.frame_count > 0,
        StateDomain::PulseWidth => p.frame_count > 0,
        StateDomain::OnsetProgram => onsets_of(p.events@).len() > 0,
        StateDomain::OscillatorContinuation => continuation_total(p) > 0,
        StateDomain::NoiseContinuation => exists|i: int|
            0 <= i < p.voices@.len() && count_where(
                (#[trigger] p.voices@[i]).waveform@,
                |w: u8| noise_selected(w),
            ) > 0,
        StateDomain::Filter => p.chip.cutoff_points > 0 || p.chip.resonance_points > 0
            || p.chip.filter_mode_points > 0,
        StateDomain::Routing => p.chip.routing_points > 0,
        StateDomain::CrossVoice => cross_voice_total(p) > 0,
        StateDomain::Digi => digi_stream(p),
    }
}

/// The two candidates that automate everything.
pub open spec fn automation_drafts(p: AnalyzedSidProgram) -> Seq<DraftView> {
    let sparse_points = p.interpretations@.len() as u32;
    let dense_points = primary_total(p) as u32;
    seq![
        DraftView {
            class: RepresentationClass::SparseAutomation,
            coverage: needed_domains(p),
            requirements: Seq::empty(),
            losses: seq![KnownLoss::TimingBounded],
            editability: EditabilityClass::SparseAutomation,
            graph: 3,
            density: sparse_points,
            residuals: sparse_deviation(p),
            render: RenderRequirement::Required,
            recipe: RecipeView::Automation {
                dense: false,
                points: sparse_points,
                fallbacks: program_fallbacks(p),
            },
        },
        DraftView {
            class: RepresentationClass::DenseAutomation,
            coverage: needed_domains(p),
            requirements: Seq::empty(),
            losses: seq![
                KnownLoss::TimingBounded,
                KnownLoss::StateApproximation,
                KnownLoss::TopologyApproximation,
            ],
            editability: EditabilityClass::DenseAutomation,
            graph: 6,
            density: dense_points,
            residuals: dense_deviation(p),
            render: RenderRequirement::PinnedBaseline,
            recipe: RecipeView::Automation {
                dense: true,
                points: dense_points,
                fallbacks: program_fallbacks(p),
            },
        },
    ]
}

/// All candidates of a program, in order.
pub open spec fn program_drafts(p: AnalyzedSidProgram) -> Seq<DraftView> {
    envelope_drafts(p) + pitch_drafts(p) + modulator_drafts(p) + causal_drafts(p) + script_drafts(p)
        + chip_drafts(p) + automation_drafts(p)
}

/// A candidate before it has its place and its size.
#[derive(Debug)]
pub struct Draft {
    pub class: RepresentationClass,
    pub coverage: Coverage,
    pub requirements: Vec<Requirement>,
    pub losses: Vec<KnownLoss>,
    pub editability: EditabilityClass,
    pub graph: u32,
    pub density: u32,
    pub residuals: StateResiduals,
    pub render: RenderRequirement,
    pub recipe: CandidateRecipe,
}

impl Draft {
    /// The draft as plain values.
    pub open spec fn view(self) -> DraftView {
        DraftView {
            class: self.class,
            coverage: self.coverage@,
            requirements: requirement_views(self.requirements@),
            losses: self.losses@,
            editability: self.editability,
            graph: self.graph,
            density: self.density,
            residuals: self.residuals,
            render: self.render,
            recipe: self.recipe.view(),
        }
    }
}

/// Drafts as plain values.
pub open spec fn draft_views(s: Seq<Draft>) -> Seq<DraftView> {
    s.map_values(|d: Draft| d.view())
}

fn copy_list<T: Copy>(v: &Vec<T>) -> (r: Vec<T>)
    ensures
        r@ == v@,
{
    let mut out: Vec<T> = Vec::new();
    let mut i: usize = 0;
    while i < v.len()
        invariant
            i <= v@.len(),
            out@ == v@.take(i as int),
        decreases v@.len() - i,
    {
        out.push(v[i]);
        i += 1;
    }
    out
}

fn module(name: &str) -> (r: Requirement)
    ensures
        r.view() == needs(name@),
{
    Requirement::Module(ModuleType(name.to_owned()))
}

fn behavior(b: BehaviorCapability) -> (r: Requirement)
    ensures
        r.view() == behaves(b),
{
    Requirement::Behavior(b)
}

fn plain(
    class: RepresentationClass,
    coverage: Coverage,
    requirements: Vec<Requirement>,
    editability: EditabilityClass,
    graph: u32,
    recipe: CandidateRecipe,
) -> (r: Draft)
    ensures
        r.view() == plain_draft(
            class,
            coverage@,
            requirement_views(requirements@),
            editability,
            graph,
            recipe.view(),
        ),
{
    let losses: Vec<KnownLoss> = Vec::new();
    assert(losses@ =~= Seq::<KnownLoss>::empty());
    Draft {
        class,
        coverage,
        requirements,
        losses,
        editability,
        graph,
        density: 0,
        residuals: StateResiduals::exact(),
        render: RenderRequirement::Required,
        recipe,
    }
}

fn push_draft(out: &mut Vec<Draft>, d: Draft)
    ensures
        draft_views(final(out)@) == draft_views(old(out)@).push(d.view()),
{
    out.push(d);
    assert(draft_views(out@) =~= draft_views(old(out)@).push(d.view()));
}

fn envelope_coverage() -> (r: Coverage)
    ensures
        r@ == envelope_domains(),
{
    let mut c: Coverage = Coverage::new();
    c.insert(StateDomain::Amplitude);
    c.insert(StateDomain::GateRetrigger);
    c
}

fn pitch_coverage() -> (r: Coverage)
    ensures
        r@ == Set::<StateDomain>::empty().insert(StateDomain::Pitch),
{
    let mut c: Coverage = Coverage::new();
    c.insert(StateDomain::Pitch);
    c
}

fn add_envelope_drafts(out: &mut Vec<Draft>, p: &AnalyzedSidProgram)
    requires
        countable(*p),
    ensures
        draft_views(final(out)@) == draft_views(old(out)@) + envelope_drafts(*p),
{
    let ghost start = draft_views(out@);
    let points: RecipePointCount = RecipePointCount(envelope_points(p));
    let entries: StateMismatchCount = StateMismatchCount(history_sensitive_retriggers(p));
    let residuals: StateResiduals = StateResiduals {
        gate_retrigger: entries,
        ..StateResiduals::exact()
    };
    let mut native: Draft = plain(
        RepresentationClass::NativeAdsr,
        envelope_coverage(),
        vec![module("envelope")],
        EditabilityClass::Native,
        1,
        CandidateRecipe::NativeAdsr {
            envelope_points: points,
            history_sensitive_entries: entries,
        },
    );
    native.residuals = residuals;
    let mut normalized: Draft = plain(
        RepresentationClass::NormalizedAdsr,
        envelope_coverage(),
        vec![module("envelope")],
        EditabilityClass::Native,
        1,
        CandidateRecipe::NormalizedAdsr {
            envelope_points: points,
            history_sensitive_entries: entries,
        },
    );
    normalized.residuals = residuals;
    let mut mseg: Draft = plain(
        RepresentationClass::Mseg,
        envelope_coverage(),
        vec![module("mseg")],
        EditabilityClass::Structured,
        1,
        CandidateRecipe::Mseg { envelope_points: points, reset_from_current_entries: entries },
    );
    mseg.residuals = residuals;
    let gated: Draft = plain(
        RepresentationClass::Script,
        envelope_coverage(),
        vec![
            module("script"),
            module("mod_matrix"),
            behavior(BehaviorCapability::GateRetrigger),
            behavior(BehaviorCapability::EnvelopeStateInitialization),
        ],
        EditabilityClass::Scripted,
        2,
        CandidateRecipe::GateDrivenEnvelope { envelope_points: points },
    );
    let ghost expected = envelope_drafts(*p);
    proof {
        assert(native.view().requirements =~= expected[0].requirements);
        assert(normalized.view().requirements =~= expected[1].requirements);
        assert(mseg.view().requirements =~= expected[2].requirements);
        assert(gated.view().requirements =~= expected[3].requirements);
        assert(native.view() == expected[0]);
        assert(normalized.view() == expected[1]);
        assert(mseg.view() == expected[2]);
        assert(gated.view() == expected[3]);
    }
    push_draft(out, native);
    push_draft(out, normalized);
    push_draft(out, mseg);
    push_draft(out, gated);
    assert(draft_views(out@) =~= start + expected);
}

fn includes(c: Choice, i: &SignalInterpretation) -> (r: bool)
    ensures
        r == c.includes(*i),
{
    match c {
        Choice::PitchPeriodic => i.source == InterpretedSignalSource::VoiceFrequency && i.kind
            == SignalInterpretationKind::Periodic,
        Choice::PitchRamp => i.source == InterpretedSignalSource::VoiceFrequency && i.kind
            == SignalInterpretationKind::Ramp,
        Choice::Periodic => i.kind == SignalInterpretationKind::Periodic,
        Choice::Ramp => i.kind == SignalInterpretationKind::Ramp,
        Choice::Tabular => i.kind == SignalInterpretationKind::Table || i.kind
            == SignalInterpretationKind::BoundedScript,
    }
}

fn interpretation_ids(p: &AnalyzedSidProgram, c: Choice) -> (r: Vec<SignalInterpretationId>)
    ensures
        r@ == chosen_ids(*p, c),
{
    let all: &Vec<SignalInterpretation> = &p.interpretations;
    let ghost f = |i: SignalInterpretation| c.includes(i);
    let mut out: Vec<SignalInterpretationId> = Vec::new();
    let mut i: usize = 0;
    assert(all@.take(0) =~= Seq::<SignalInterpretation>::empty());
    while i < all.len()
        invariant
            i <= all@.len(),
            f == |i: SignalInterpretation| c.includes(i),
            out@ == ids_where(all@.take(i as int), f),
        decreases all@.len() - i,
    {
        assert(all@.take(i + 1).drop_last() =~= all@.take(i as int));
        if includes(c, &all[i]) {
            out.push(all[i].id);
        }
        i += 1;
    }
    assert(all@.take(all@.len() as int) =~= all@);
    out
}

fn domain_of(s: InterpretedSignalSource) -> (r: StateDomain)
    ensures
        r == source_domain(s),
{
    match s {
        InterpretedSignalSource::VoiceFrequency => StateDomain::Pitch,
        InterpretedSignalSource::VoicePulseWidth => StateDomain::PulseWidth,
        InterpretedSignalSource::ChipCutoff => StateDomain::Filter,
        InterpretedSignalSource::MasterVolume => StateDomain::Amplitude,
        InterpretedSignalSource::EnvelopeLevel => StateDomain::Amplitude,
    }
}

fn holds_id(ids: &Vec<SignalInterpretationId>, id: SignalInterpretationId) -> (r: bool)
    ensures
        r == ids@.contains(id),
{
    let mut i: usize = 0;
    while i < ids.len()
        invariant
            i <= ids@.len(),
            forall|j: int| 0 <= j < i ==> ids@[j] != id,
        decreases ids@.len() - i,
    {
        if ids[i] == id {
            return true;
        }
        i += 1;
    }
    false
}

fn interpretation_coverage(p: &AnalyzedSidProgram, ids: &Vec<SignalInterpretationId>) -> (r:
    Coverage)
    ensures
        r@ == interpretation_domains(*p, ids@),
{
    let all: &Vec<SignalInterpretation> = &p.interpretations;
    let mut c: Coverage = Coverage::new();
    let mut i: usize = 0;
    while i < all.len()
        invariant
            i <= all@.len(),
            all == p.interpretations,
            forall|d: StateDomain| #[trigger]
                c@.contains(d) <==> exists|j: int|
                    0 <= j < i && ids@.contains((#[trigger] p.interpretations@[j]).id)
                        && source_domain(p.interpretations@[j].source) == d,
        decreases all@.len() - i,
    {
        let ghost before = c@;
        let it: SignalInterpretation = all[i];
        if holds_id(ids, it.id) {
            c.insert(domain_of(it.source));
        }
        i += 1;
        proof {
            assert forall|d: StateDomain| #[trigger]
                c@.contains(d) <==> exists|j: int|
                    0 <= j < i && ids@.contains((#[trigger] p.interpretations@[j]).id)
                        && source_domain(p.interpretations@[j].source) == d by {
                assert(p.interpretations@[i - 1] == it);
                if before.contains(d) {
                    let j = choose|j: int|
                        0 <= j < i - 1 && ids@.contains((#[trigger] p.interpretations@[j]).id)
                            && source_domain(p.interpretations@[j].source) == d;
                    assert(0 <= j < i && ids@.contains(p.interpretations@[j].id));
                }
            }
        }
    }
    assert(c@ =~= interpretation_domains(*p, ids@));
    c
}

fn add_pitch_drafts(out: &mut Vec<Draft>, p: &AnalyzedSidProgram)
    ensures
        draft_views(final(out)@) == draft_views(old(out)@) + pitch_drafts(*p),
{
    let ghost start = draft_views(out@);
    let arpeggios: Vec<SignalInterpretationId> = interpretation_ids(p, Choice::PitchPeriodic);
    let none: Vec<Requirement> = Vec::new();
    assert(requirement_views(none@) =~= Seq::empty());
    if arpeggios.len() > 0 {
        push_draft(
            out,
            plain(
                RepresentationClass::Arpeggiator,
                pitch_coverage(),
                none,
                EditabilityClass::Native,
                1,
                CandidateRecipe::Arpeggiator { interpretations: arpeggios },
            ),
        );
    }
    let glides: Vec<SignalInterpretationId> = interpretation_ids(p, Choice::PitchRamp);
    let nothing: Vec<Requirement> = Vec::new();
    assert(requirement_views(nothing@) =~= Seq::empty());
    if glides.len() > 0 {
        push_draft(
            out,
            plain(
                RepresentationClass::Glide,
                pitch_coverage(),
                nothing,
                EditabilityClass::Native,
                1,
                CandidateRecipe::Glide { interpretations: glides },
            ),
        );
    }
    assert(draft_views(out@) =~= start + pitch_drafts(*p));
}

fn add_modulator_drafts(out: &mut Vec<Draft>, p: &AnalyzedSidProgram)
    ensures
        draft_views(final(out)@) == draft_views(old(out)@) + modulator_drafts(*p),
{
    let ghost start = draft_views(out@);
    let periodic: Vec<SignalInterpretationId> = interpretation_ids(p, Choice::Periodic);
    if periodic.len() > 0 {
        let needed: Vec<Requirement> = vec![
            module("lfo"),
            behavior(BehaviorCapability::GateRetrigger),
        ];
        assert(requirement_views(needed@) =~= seq![
            needs("lfo"@),
            behaves(BehaviorCapability::GateRetrigger),
        ]);
        push_draft(
            out,
            plain(
                RepresentationClass::Lfo,
                interpretation_coverage(p, &periodic),
                needed,
                EditabilityClass::Native,
                1,
                CandidateRecipe::Lfo { interpretations: periodic },
            ),
        );
    }
    let ramps: Vec<SignalInterpretationId> = interpretation_ids(p, Choice::Ramp);
    if ramps.len() > 0 {
        let needed: Vec<Requirement> = vec![module("kinetic_modulator")];
        assert(requirement_views(needed@) =~= seq![needs("kinetic_modulator"@)]);
        push_draft(
            out,
            plain(
                RepresentationClass::KineticModulator,
                interpretation_coverage(p, &ramps),
                needed,
                EditabilityClass::Structured,
                1,
                CandidateRecipe::KineticModulator { interpretations: ramps },
            ),
        );
    }
    assert(draft_views(out@) =~= start + modulator_drafts(*p));
}

fn add_register_domains(c: &mut Coverage, register: u8)
    ensures
        forall|d: StateDomain| #[trigger]
            final(c)@.contains(d) <==> old(c)@.contains(d) || register_domains(register).contains(
                d,
            ),
{
    if register < 0x15 {
        let offset: u8 = register % 7;
        if offset <= 1 {
            c.insert(StateDomain::Pitch);
        } else if offset <= 3 {
            c.insert(StateDomain::PulseWidth);
        } else if offset == 4 {
            c.insert(StateDomain::Waveform);
            c.insert(StateDomain::CrossVoice);
        } else {
            c.insert(StateDomain::Amplitude);
        }
    } else if register <= 0x16 {
        c.insert(StateDomain::Filter);
    } else if register == 0x17 {
        c.insert(StateDomain::Filter);
        c.insert(StateDomain::Routing);
    } else if register == 0x18 {
        c.insert(StateDomain::Amplitude);
        c.insert(StateDomain::Filter);
        c.insert(StateDomain::Digi);
    }
}

fn causal_coverage(p: &AnalyzedSidProgram) -> (r: Coverage)
    ensures
        r@ == causal_domains(*p),
{
    let all: &Vec<CausalDependency> = &p.dependencies;
    let mut c: Coverage = Coverage::new();
    let mut i: usize = 0;
    while i < all.len()
        invariant
            i <= all@.len(),
            all == p.dependencies,
            forall|d: StateDomain| #[trigger]
                c@.contains(d) <==> exists|j: int|
                    0 <= j < i && drives(#[trigger] p.dependencies@[j], d),
        decreases all@.len() - i,
    {
        let ghost before = c@;
        let dep: &CausalDependency = &all[i];
        if eligible_causal_dependency(dep) {
            // An eligible dependency has exactly one consumer.
            add_register_domains(&mut c, dep.consumers[0].0);
        }
        i += 1;
        proof {
            assert forall|d: StateDomain| #[trigger]
                c@.contains(d) <==> exists|j: int|
                    0 <= j < i && drives(#[trigger] p.dependencies@[j], d) by {
                assert(p.dependencies@[i - 1] == *dep);
                if before.contains(d) {
                    let j = choose|j: int|
                        0 <= j < i - 1 && drives(#[trigger] p.dependencies@[j], d);
                    assert(0 <= j < i && drives(p.dependencies@[j], d));
                }
                if eligible(*dep) && register_domains(dep.consumers@[0].0).contains(d) {
                    assert(drives(p.dependencies@[i - 1], d));
                }
            }
        }
    }
    assert(c@ =~= causal_domains(*p));
    c
}

fn add_causal_drafts(out: &mut Vec<Draft>, p: &AnalyzedSidProgram)
    ensures
        draft_views(final(out)@) == draft_views(old(out)@) + causal_drafts(*p),
{
    let ghost start = draft_views(out@);
    let count: u32 = eligible_dependencies(p) as u32;
    if count > 0 {
        let coverage: Coverage = causal_coverage(p);
        let none: Vec<Requirement> = Vec::new();
        assert(requirement_views(none@) =~= Seq::empty());
        push_draft(
            out,
            plain(
                RepresentationClass::DirectCv,
                coverage,
                none,
                EditabilityClass::Structured,
                1,
                CandidateRecipe::DirectCv { dependency_count: RecipePointCount(count) },
            ),
        );
        let needed: Vec<Requirement> = vec![module("mod_matrix")];
        assert(requirement_views(needed@) =~= seq![needs("mod_matrix"@)]);
        push_draft(
            out,
            plain(
                RepresentationClass::ModMatrix,
                coverage,
                needed,
                EditabilityClass::Structured,
                count,
                CandidateRecipe::ModMatrix { dependency_count: RecipePointCount(count) },
            ),
        );
    }
    assert(draft_views(out@) =~= start + causal_drafts(*p));
}

fn add_script_drafts(out: &mut Vec<Draft>, p: &AnalyzedSidProgram)
    ensures
        draft_views(final(out)@) == draft_views(old(out)@) + script_drafts(*p),
{
    let ghost start = draft_views(out@);
    let scripts: Vec<SignalInterpretationId> = interpretation_ids(p, Choice::Tabular);
    if scripts.len() > 0 {
        let needed: Vec<Requirement> = vec![module("script")];
        assert(requirement_views(needed@) =~= seq![needs("script"@)]);
        push_draft(
            out,
            plain(
                RepresentationClass::Script,
                interpretation_coverage(p, &scripts),
                needed,
                EditabilityClass::Scripted,
                2,
                CandidateRecipe::Script { interpretations: scripts },
            ),
        );
    }
    assert(draft_views(out@) =~= start + script_drafts(*p));
}

fn insert_voice(v: &mut Vec<VoiceId>, id: VoiceId)
    requires
        ascending(old(v)@),
    ensures
        ascending(final(v)@),
        forall|x: VoiceId| #[trigger] final(v)@.contains(x) <==> old(v)@.contains(x) || x == id,
{
    let ghost before = v@;
    let mut at: usize = 0;
    while at < v.len() && v[at].0 < id.0
        invariant
            at <= v@.len(),
            v@ == before,
            forall|i: int| 0 <= i < at ==> (#[trigger] v@[i]).0 < id.0,
        decreases v@.len() - at,
    {
        at += 1;
    }
    if at < v.len() && v[at].0 == id.0 {
        assert(v@[at as int] == id);
        return;
    }
    v.insert(at, id);
    proof {
        assert(before == old(v)@);
        assert(v@ == before.insert(at as int, id));
        assert forall|x: VoiceId| #[trigger] v@.contains(x) <==> before.contains(x) || x == id by {
            assert(v@[at as int] == id);
            if before.contains(x) {
                let k = choose|k: int| 0 <= k < before.len() && before[k] == x;
                if k < at {
                    assert(v@[k] == x);
                } else {
                    assert(v@[k + 1] == x);
                }
            }
            if v@.contains(x) {
                let k = choose|k: int| 0 <= k < v@.len() && v@[k] == x;
                if k < at {
                    assert(before[k] == x);
                } else if k > at {
                    assert(before[k - 1] == x);
                }
            }
        }
    }
}

/// Lists everything in a program that candidates apply to; the voices come in
/// ascending order, each once.
pub fn candidate_scope(p: &AnalyzedSidProgram) -> (r: CandidateScope)
    ensures
        r.view() == program_scope(*p),
        ascending(r.voices@),
{
    let mut voices: Vec<VoiceId> = Vec::new();
    let mut i: usize = 0;
    while i < p.voices.len()
        invariant
            i <= p.voices@.len(),
            ascending(voices@),
            forall|x: VoiceId| #[trigger]
                voices@.contains(x) <==> exists|j: int|
                    0 <= j < i && (#[trigger] p.voices@[j]).voice == x,
        decreases p.voices@.len() - i,
    {
        let ghost before = voices@;
        insert_voice(&mut voices, p.voices[i].voice);
        i += 1;
        proof {
            assert forall|x: VoiceId| #[trigger]
                voices@.contains(x) <==> exists|j: int|
                    0 <= j < i && (#[trigger] p.voices@[j]).voice == x by {
                if before.contains(x) {
                    let j = choose|j: int| 0 <= j < i - 1 && (#[trigger] p.voices@[j]).voice == x;
                    assert(p.voices@[j].voice == x);
                }
                assert(p.voices@[i - 1].voice == p.voices@[i - 1].voice);
            }
        }
    }
    let mut regions: Vec<SoundRegionId> = Vec::new();
    let mut j: usize = 0;
    while j < p.regions.len()
        invariant
            j <= p.regions@.len(),
            regions@ =~= p.regions@.take(j as int).map_values(|r: SoundRegion| r.id),
        decreases p.regions@.len() - j,
    {
        regions.push(p.regions[j].id);
        j += 1;
    }
    let mut continuous: Vec<ContinuousOccurrenceId> = Vec::new();
    let mut k: usize = 0;
    while k < p.continuous.len()
        invariant
            k <= p.continuous@.len(),
            continuous@ =~= p.continuous@.take(k as int).map_values(|o: ContinuousOccurrence| o.id),
        decreases p.continuous@.len() - k,
    {
        continuous.push(p.continuous[k].id);
        k += 1;
    }
    let mut interpretations: Vec<SignalInterpretationId> = Vec::new();
    let mut l: usize = 0;
    while l < p.interpretations.len()
        invariant
            l <= p.interpretations@.len(),
            interpretations@ =~= p.interpretations@.take(l as int).map_values(
                |i: SignalInterpretation| i.id,
            ),
        decreases p.interpretations@.len() - l,
    {
        interpretations.push(p.interpretations[l].id);
        l += 1;
    }
    let scope: CandidateScope = CandidateScope {
        voices,
        regions,
        definitions: copy_list(&p.definitions),
        occurrences: copy_list(&p.occurrences),
        continuous_occurrences: continuous,
        reuse_groups: copy_list(&p.reuse_groups),
        interpretations,
    };
    proof {
        let v = scope.view();
        let w = program_scope(*p);
        assert forall|x: VoiceId| #[trigger] v.voices.contains(x) <==> has_voice(*p, x) && x.0
            < 256 by {}
        ascending_voices_are_listed(*p, v.voices, 256);
        assert(v.regions =~= w.regions);
        assert(v.continuous_occurrences =~= w.continuous_occurrences);
        assert(v.interpretations =~= w.interpretations);
    }
    scope
}

fn copy_scope(s: &CandidateScope) -> (r: CandidateScope)
    ensures
        r.view() == s.view(),
{
    CandidateScope {
        voices: copy_list(&s.voices),
        regions: copy_list(&s.regions),
        definitions: copy_list(&s.definitions),
        occurrences: copy_list(&s.occurrences),
        continuous_occurrences: copy_list(&s.continuous_occurrences),
        reuse_groups: copy_list(&s.reuse_groups),
        interpretations: copy_list(&s.interpretations),
    }
}

fn has_bounded_onset(onsets: &Vec<OnsetProgramRecipe>) -> (r: bool)
    ensures
        r == bounded_onset(onset_views(onsets@)),
{
    let mut i: usize = 0;
    let ghost views = onset_views(onsets@);
    while i < onsets.len()
        invariant
            i <= onsets@.len(),
            views == onset_views(onsets@),
            forall|j: int|
                0 <= j < i ==> (#[trigger] views[j]).timestamp_quality
                    != EventTimestampQuality::InstructionStartBounded,
        decreases onsets@.len() - i,
    {
        assert(views[i as int].timestamp_quality == onsets@[i as int].timestamp_quality);
        if onsets[i].timestamp_quality == EventTimestampQuality::InstructionStartBounded {
            return true;
        }
        i += 1;
    }
    false
}

fn sid_sequence_requirements(
    p: &AnalyzedSidProgram,
    onsets: bool,
    oscillators: bool,
    noises: bool,
) -> (r: Vec<Requirement>)
    requires
        onsets == (onsets_of(p.events@).len() > 0),
        oscillators == (oscillator_starts_of(p.continuous@).len() > 0),
        noises == (noise_starts_of(p.continuous@).len() > 0),
    ensures
        requirement_views(r@) == sequence_requirements(*p),
{
    let mut out: Vec<Requirement> = Vec::new();
    out.push(module("sid_oscillator"));
    if onsets {
        out.push(behavior(BehaviorCapability::CycleStampedControl));
    }
    if continuation_edge_count(p) > 0 {
        out.push(behavior(BehaviorCapability::SequenceContinuation));
    }
    if oscillators {
        out.push(behavior(BehaviorCapability::PhaseReset));
        out.push(behavior(BehaviorCapability::OscillatorStateInitialization));
    }
    if noises {
        out.push(behavior(BehaviorCapability::NoiseStateInitialization));
    }
    if cross_voice_edge_count(p) > 0 {
        out.push(behavior(BehaviorCapability::LiveCrossVoice));
    }
    assert(requirement_views(out@) =~= sequence_requirements(*p));
    out
}

fn oscillator_draft(p: &AnalyzedSidProgram) -> (r: Draft)
    requires
        countable(*p),
    ensures
        r.view() == chip_drafts(*p)[0],
{
    let mut coverage: Coverage = Coverage::new();
    coverage.insert(StateDomain::Waveform);
    coverage.insert(StateDomain::PulseWidth);
    let needed: Vec<Requirement> = vec![module("sid_oscillator")];
    assert(requirement_views(needed@) =~= seq![needs("sid_oscillator"@)]);
    let mut d: Draft = plain(
        RepresentationClass::SidOscillator,
        coverage,
        needed,
        EditabilityClass::Native,
        1,
        CandidateRecipe::SidOscillator { waveform_points: RecipePointCount(waveform_points(p)) },
    );
    let losses: Vec<KnownLoss> = vec![KnownLoss::StateApproximation];
    assert(losses@ =~= seq![KnownLoss::StateApproximation]);
    d.losses = losses;
    d.residuals = StateResiduals {
        waveform: StateMismatchCount(waveform_changes(p)),
        ..StateResiduals::exact()
    };
    d
}

fn sequence_draft(p: &AnalyzedSidProgram, scope: &CandidateScope) -> (r: Draft)
    requires
        scope.view() == program_scope(*p),
    ensures
        r.view() == chip_drafts(*p)[1],
{
    let mut coverage: Coverage = Coverage::new();
    coverage.insert(StateDomain::OnsetProgram);
    coverage.insert(StateDomain::GateRetrigger);
    coverage.insert(StateDomain::Waveform);
    coverage.insert(StateDomain::PulseWidth);
    coverage.insert(StateDomain::OscillatorContinuation);
    coverage.insert(StateDomain::NoiseContinuation);
    coverage.insert(StateDomain::CrossVoice);
    let onsets: Vec<OnsetProgramRecipe> = onset_programs(p);
    let oscillators: Vec<OscillatorStartRecipe> = oscillator_start_recipes(p);
    let noises: Vec<NoiseStartRecipe> = noise_start_recipes(p);
    let bounded: bool = has_bounded_onset(&onsets);
    assert(onset_views(onsets@).len() == onsets@.len());
    let needed: Vec<Requirement> = sid_sequence_requirements(
        p,
        onsets.len() > 0,
        oscillators.len() > 0,
        noises.len() > 0,
    );
    let mut d: Draft = plain(
        RepresentationClass::SidSequence,
        coverage,
        needed,
        EditabilityClass::Native,
        3,
        CandidateRecipe::SidSequence {
            definitions: copy_list(&scope.definitions),
            occurrences: copy_list(&scope.continuous_occurrences),
            reuse_groups: copy_list(&scope.reuse_groups),
            onset_programs: onsets,
            oscillator_starts: oscillators,
            noise_starts: noises,
        },
    );
    let mut losses: Vec<KnownLoss> = Vec::new();
    if bounded {
        losses.push(KnownLoss::TimingBounded);
    }
    assert(losses@ =~= only_if(bounded_onset(onsets_of(p.events@)), KnownLoss::TimingBounded));
    d.losses = losses;
    d
}

fn filter_draft(p: &AnalyzedSidProgram) -> (r: Draft)
    requires
        countable(*p),
    ensures
        r.view() == chip_drafts(*p)[2],
{
    let mut coverage: Coverage = Coverage::new();
    coverage.insert(StateDomain::Filter);
    coverage.insert(StateDomain::Routing);
    let needed: Vec<Requirement> = vec![
        module("filter"),
        behavior(BehaviorCapability::DynamicRouting),
        behavior(BehaviorCapability::ChipScopedFilter),
    ];
    assert(requirement_views(needed@) =~= seq![
        needs("filter"@),
        behaves(BehaviorCapability::DynamicRouting),
        behaves(BehaviorCapability::ChipScopedFilter),
    ]);
    let mut d: Draft = plain(
        RepresentationClass::SharedFilter,
        coverage,
        needed,
        EditabilityClass::Native,
        1,
        CandidateRecipe::SharedFilter {
            control_points: RecipePointCount(filter_points(p)),
            topology_edges: RecipePointCount(p.chip.edges.len() as u32),
        },
    );
    d.density = p.chip.cutoff_points as u32;
    d
}

fn filter_points(p: &AnalyzedSidProgram) -> (r: u32)
    requires
        countable(*p),
    ensures
        r == filter_total(*p) as u32,
{
    let total: usize = p.chip.cutoff_points + p.chip.resonance_points + p.chip.routing_points
        + p.chip.filter_mode_points;
    total as u32
}

fn sampler_draft(p: &AnalyzedSidProgram) -> (r: Draft)
    ensures
        digi_stream(*p) ==> r.view() == chip_drafts(*p)[3],
{
    let mut coverage: Coverage = Coverage::new();
    coverage.insert(StateDomain::Digi);
    let needed: Vec<Requirement> = vec![
        module("sampler"),
        behavior(BehaviorCapability::BundleSampleLoading),
    ];
    assert(requirement_views(needed@) =~= seq![
        needs("sampler"@),
        behaves(BehaviorCapability::BundleSampleLoading),
    ]);
    let mut d: Draft = plain(
        RepresentationClass::Sampler,
        coverage,
        needed,
        EditabilityClass::Rendered,
        1,
        CandidateRecipe::Sampler {
            sample_points: RecipePointCount(detected_digi_points(p) as u32),
        },
    );
    let losses: Vec<KnownLoss> = vec![KnownLoss::RenderedFallback];
    assert(losses@ =~= seq![KnownLoss::RenderedFallback]);
    d.losses = losses;
    d
}

fn add_chip_drafts(out: &mut Vec<Draft>, p: &AnalyzedSidProgram, scope: &CandidateScope)
    requires
        countable(*p),
        scope.view() == program_scope(*p),
    ensures
        draft_views(final(out)@) == draft_views(old(out)@) + chip_drafts(*p),
{
    let ghost start = draft_views(out@);
    push_draft(out, oscillator_draft(p));
    push_draft(out, sequence_draft(p, scope));
    push_draft(out, filter_draft(p));
    if has_digi_stream(p) {
        push_draft(out, sampler_draft(p));
    }
    assert(draft_views(out@) =~= start + chip_drafts(*p));
}

proof fn steps_fit(p: AnalyzedSidProgram, n: int, s: InterpretedSignalSource)
    requires
        0 <= n <= p.interpretations@.len(),
    ensures
        tabular_steps(p, n, s) <= steps_total(p, n),
        steps_total(p, n) <= steps_total(p, p.interpretations@.len() as int),
    decreases p.interpretations@.len() - n, n,
{
    if n < p.interpretations@.len() {
        steps_fit_above(p, n);
    }
    steps_fit_below(p, n, s);
}

proof fn steps_fit_above(p: AnalyzedSidProgram, n: int)
    requires
        0 <= n <= p.interpretations@.len(),
    ensures
        steps_total(p, n) <= steps_total(p, p.interpretations@.len() as int),
    decreases p.interpretations@.len() - n,
{
    if n < p.interpretations@.len() {
        steps_fit_above(p, n + 1);
    }
}

proof fn steps_fit_below(p: AnalyzedSidProgram, n: int, s: InterpretedSignalSource)
    ensures
        tabular_steps(p, n, s) <= steps_total(p, n),
    decreases n,
{
    if n > 0 {
        steps_fit_below(p, n - 1, s);
    }
}

fn sparse_residuals(p: &AnalyzedSidProgram) -> (r: StateResiduals)
    requires
        countable(*p),
    ensures
        r == sparse_deviation(*p),
{
    let all: &Vec<SignalInterpretation> = &p.interpretations;
    let mut pitch: bool = false;
    let mut level: bool = false;
    let mut pulse: u64 = 0;
    let mut filter: u64 = 0;
    let mut i: usize = 0;
    while i < all.len()
        invariant
            i <= all@.len(),
            all == p.interpretations,
            countable(*p),
            pitch == tabular_source(*p, i as int, InterpretedSignalSource::VoiceFrequency),
            level == (tabular_source(*p, i as int, InterpretedSignalSource::MasterVolume)
                || tabular_source(*p, i as int, InterpretedSignalSource::EnvelopeLevel)),
            pulse == tabular_steps(*p, i as int, InterpretedSignalSource::VoicePulseWidth),
            filter == tabular_steps(*p, i as int, InterpretedSignalSource::ChipCutoff),
        decreases all@.len() - i,
    {
        let it: SignalInterpretation = all[i];
        proof {
            steps_fit(*p, i + 1, InterpretedSignalSource::VoicePulseWidth);
            steps_fit(*p, i + 1, InterpretedSignalSource::ChipCutoff);
            assert(p.interpretations@[i as int] == it);
            tabular_source_step(*p, i as int, InterpretedSignalSource::VoiceFrequency);
            tabular_source_step(*p, i as int, InterpretedSignalSource::MasterVolume);
            tabular_source_step(*p, i as int, InterpretedSignalSource::EnvelopeLevel);
        }
        if includes(Choice::Tabular, &it) {
            match it.source {
                InterpretedSignalSource::VoiceFrequency => {
                    pitch = true;
                },
                InterpretedSignalSource::VoicePulseWidth => {
                    pulse += it.steps as u64;
                },
                InterpretedSignalSource::ChipCutoff => {
                    filter += it.steps as u64;
                },
                InterpretedSignalSource::MasterVolume => {
                    level = true;
                },
                InterpretedSignalSource::EnvelopeLevel => {
                    level = true;
                },
            }
        }
        i += 1;
    }
    StateResiduals {
        maximum_pitch: CentsResidual(
            if pitch {
                100_000
            } else {
                0
            },
        ),
        maximum_level: LevelResidual(
            if level {
                100
            } else {
                0
            },
        ),
        pulse_width: StateMismatchCount(pulse),
        filter: StateMismatchCount(filter),
        waveform: StateMismatchCount(waveform_changes(p)),
        oscillator_continuation: StateMismatchCount(continuation_edge_count(p)),
        noise_continuation: StateMismatchCount(noise_points(p)),
        cross_voice: StateMismatchCount(cross_voice_edge_count(p)),
        digi: StateMismatchCount(detected_digi_points(p) as u32 as u64),
        ..StateResiduals::exact()
    }
}

proof fn tabular_source_step(p: AnalyzedSidProgram, n: int, s: InterpretedSignalSource)
    requires
        0 <= n < p.interpretations@.len(),
    ensures
        tabular_source(p, n + 1, s) <==> tabular_source(p, n, s) || (tabular(p.interpretations@[n])
            && p.interpretations@[n].source == s),
{
    if tabular_source(p, n, s) {
        let i = choose|i: int|
            0 <= i < n && tabular(#[trigger] p.interpretations@[i]) && p.interpretations@[i].source
                == s;
        assert(0 <= i < n + 1 && tabular(p.interpretations@[i]));
    }
}

fn fallback_residuals(p: &AnalyzedSidProgram) -> (r: StateResiduals)
    requires
        countable(*p),
    ensures
        r == dense_deviation(*p),
{
    let onsets: Vec<OnsetProgramRecipe> = onset_programs(p);
    assert(onset_views(onsets@).len() == onsets@.len());
    StateResiduals {
        onset_program: StateMismatchCount(onsets.len() as u64),
        gate_retrigger: StateMismatchCount(history_sensitive_retriggers(p)),
        waveform: StateMismatchCount(waveform_changes(p)),
        oscillator_continuation: StateMismatchCount(continuation_edge_count(p)),
        noise_continuation: StateMismatchCount(noise_start_recipes(p).len() as u64),
        filter: StateMismatchCount(filter_points(p) as u64),
        routing: StateMismatchCount(p.chip.routing_points as u64),
        cross_voice: StateMismatchCount(cross_voice_edge_count(p)),
        digi: StateMismatchCount(detected_digi_points(p) as u32 as u64),
        ..StateResiduals::exact()
    }
}

fn any_ineligible(p: &AnalyzedSidProgram) -> (r: bool)
    ensures
        r == exists|i: int|
            0 <= i < p.dependencies@.len() && !eligible(#[trigger] p.dependencies@[i]),
{
    let mut i: usize = 0;
    while i < p.dependencies.len()
        invariant
            i <= p.dependencies@.len(),
            forall|j: int| 0 <= j < i ==> eligible(#[trigger] p.dependencies@[j]),
        decreases p.dependencies@.len() - i,
    {
        if !eligible_causal_dependency(&p.dependencies[i]) {
            assert(!eligible(p.dependencies@[i as int]));
            return true;
        }
        i += 1;
    }
    false
}

fn any_random(p: &AnalyzedSidProgram) -> (r: bool)
    ensures
        r == exists|i: int|
            0 <= i < p.dependencies@.len() && (#[trigger] p.dependencies@[i]).random_source,
{
    let mut i: usize = 0;
    while i < p.dependencies.len()
        invariant
            i <= p.dependencies@.len(),
            forall|j: int| 0 <= j < i ==> !(#[trigger] p.dependencies@[j]).random_source,
        decreases p.dependencies@.len() - i,
    {
        if p.dependencies[i].random_source {
            assert(p.dependencies@[i as int].random_source);
            return true;
        }
        i += 1;
    }
    false
}

fn fallback_reasons(p: &AnalyzedSidProgram) -> (r: Vec<FallbackReason>)
    requires
        countable(*p),
    ensures
        r@ == program_fallbacks(*p),
{
    let mut out: Vec<FallbackReason> = Vec::new();
    let onsets: Vec<OnsetProgramRecipe> = onset_programs(p);
    let bounded: bool = has_bounded_onset(&onsets);
    let history: bool = history_sensitive_retriggers(p) > 0;
    let continued: bool = continuation_edge_count(p) > 0;
    let noise: bool = noise_start_recipes(p).len() > 0;
    let local: bool = p.chip.cutoff_points > 0 || p.chip.routing_points > 0;
    let crossed: bool = cross_voice_edge_count(p) > 0;
    let ambiguous: bool = any_ineligible(p);
    let random: bool = any_random(p);
    let digi: bool = has_digi_stream(p);
    push_when(&mut out, bounded, FallbackReason::InstructionStartTiming);
    push_when(&mut out, history, FallbackReason::EnvelopeHistory);
    push_when(&mut out, continued, FallbackReason::OscillatorContinuation);
    push_when(&mut out, noise, FallbackReason::NoiseContinuation);
    push_when(&mut out, local, FallbackReason::VoiceLocalFilter);
    push_when(&mut out, crossed, FallbackReason::CrossVoiceTopology);
    push_when(&mut out, ambiguous, FallbackReason::AmbiguousCausalModulation);
    push_when(&mut out, random, FallbackReason::RandomModulation);
    push_when(&mut out, digi, FallbackReason::DigiUnsupported);
    assert(Seq::<FallbackReason>::empty() + only_if(bounded, FallbackReason::InstructionStartTiming)
        =~= only_if(bounded, FallbackReason::InstructionStartTiming));
    out
}

fn push_when(out: &mut Vec<FallbackReason>, condition: bool, reason: FallbackReason)
    ensures
        final(out)@ == old(out)@ + only_if(condition, reason),
{
    if condition {
        out.push(reason);
    }
    assert(out@ =~= old(out)@ + only_if(condition, reason));
}

fn selects_noise(w: &Vec<u8>) -> (r: bool)
    ensures
        r == (count_where(w@, |b: u8| noise_selected(b)) > 0),
{
    proof {
        count_where_bounds(w@, |b: u8| noise_selected(b));
    }
    let mut i: usize = 0;
    while i < w.len()
        invariant
            i <= w@.len(),
            forall|j: int| 0 <= j < i ==> !noise_selected(#[trigger] w@[j]),
            count_where(w@, |b: u8| noise_selected(b)) > 0 <==> exists|i: int|
                0 <= i < w@.len() && (|b: u8| noise_selected(b))(#[trigger] w@[i]),
        decreases w@.len() - i,
    {
        if w[i] >= 0x80 {
            assert((|b: u8| noise_selected(b))(w@[i as int]));
            return true;
        }
        i += 1;
    }
    false
}

/// Tells which domains a program needs to have represented.
pub fn required_domains(p: &AnalyzedSidProgram) -> (r: Coverage)
    ensures
        r@ == needed_domains(*p),
{
    let mut c: Coverage = Coverage::new();
    if p.frame_count > 0 {
        c.insert(StateDomain::Pitch);
        c.insert(StateDomain::Amplitude);
        c.insert(StateDomain::GateRetrigger);
        c.insert(StateDomain::Waveform);
        c.insert(StateDomain::PulseWidth);
    }
    let onsets: Vec<OnsetProgramRecipe> = onset_programs(p);
    assert(onset_views(onsets@).len() == onsets@.len());
    if onsets.len() > 0 {
        c.insert(StateDomain::OnsetProgram);
    }
    if continuation_edge_count(p) > 0 {
        c.insert(StateDomain::OscillatorContinuation);
    }
    let mut noise: bool = false;
    let mut i: usize = 0;
    while i < p.voices.len()
        invariant
            i <= p.voices@.len(),
            noise == exists|j: int|
                0 <= j < i && count_where(
                    (#[trigger] p.voices@[j]).waveform@,
                    |w: u8| noise_selected(w),
                ) > 0,
        decreases p.voices@.len() - i,
    {
        let ghost before = noise;
        let here: bool = selects_noise(&p.voices[i].waveform);
        proof {
            if before {
                let j = choose|j: int|
                    0 <= j < i && count_where(
                        (#[trigger] p.voices@[j]).waveform@,
                        |w: u8| noise_selected(w),
                    ) > 0;
                assert(count_where(p.voices@[j].waveform@, |w: u8| noise_selected(w)) > 0);
            }
            if here {
                assert(count_where(p.voices@[i as int].waveform@, |w: u8| noise_selected(w)) > 0);
            }
        }
        noise = noise || here;
        i += 1;
    }
    if noise {
        c.insert(StateDomain::NoiseContinuation);
    }
    if p.chip.cutoff_points > 0 || p.chip.resonance_points > 0 || p.chip.filter_mode_points > 0 {
        c.insert(StateDomain::Filter);
    }
    if p.chip.routing_points > 0 {
        c.insert(StateDomain::Routing);
    }
    if cross_voice_edge_count(p) > 0 {
        c.insert(StateDomain::CrossVoice);
    }
    if has_digi_stream(p) {
        c.insert(StateDomain::Digi);
    }
    assert(c@ =~= needed_domains(*p));
    c
}

fn add_automation_drafts(out: &mut Vec<Draft>, p: &AnalyzedSidProgram)
    requires
        countable(*p),
    ensures
        draft_views(final(out)@) == draft_views(old(out)@) + automation_drafts(*p),
{
    let ghost start = draft_views(out@);
    let ghost expected = automation_drafts(*p);
    let required: Coverage = required_domains(p);
    let sparse_points: u32 = p.interpretations.len() as u32;
    let dense_points: u32 = primary_events(p) as u32;
    let sparse: Draft = Draft {
        class: RepresentationClass::SparseAutomation,
        coverage: required,
        requirements: Vec::new(),
        losses: vec![KnownLoss::TimingBounded],
        editability: EditabilityClass::SparseAutomation,
        graph: 3,
        density: sparse_points,
        residuals: sparse_residuals(p),
        render: RenderRequirement::Required,
        recipe: CandidateRecipe::Automation {
            dense: false,
            control_points: RecipePointCount(sparse_points),
            fallbacks: fallback_reasons(p),
        },
    };
    let dense: Draft = Draft {
        class: RepresentationClass::DenseAutomation,
        coverage: required,
        requirements: Vec::new(),
        losses: vec![
            KnownLoss::TimingBounded,
            KnownLoss::StateApproximation,
            KnownLoss::TopologyApproximation,
        ],
        editability: EditabilityClass::DenseAutomation,
        graph: 6,
        density: dense_points,
        residuals: fallback_residuals(p),
        render: RenderRequirement::PinnedBaseline,
        recipe: CandidateRecipe::Automation {
            dense: true,
            control_points: RecipePointCount(dense_points),
            fallbacks: fallback_reasons(p),
        },
    };
    proof {
        assert(sparse.view().requirements =~= expected[0].requirements);
        assert(sparse.view().losses =~= expected[0].losses);
        assert(dense.view().requirements =~= expected[1].requirements);
        assert(dense.view().losses =~= expected[1].losses);
        assert(sparse.view() == expected[0]);
        assert(dense.view() == expected[1]);
    }
    push_draft(out, sparse);
    push_draft(out, dense);
    assert(draft_views(out@) =~= start + expected);
}

/// Drafts all candidates of a program.
pub fn drafts(p: &AnalyzedSidProgram, scope: &CandidateScope) -> (r: Vec<Draft>)
    requires
        countable(*p),
        scope.view() == program_scope(*p),
    ensures
        draft_views(r@) == program_drafts(*p),
{
    let mut out: Vec<Draft> = Vec::new();
    assert(draft_views(out@) =~= Seq::empty());
    add_envelope_drafts(&mut out, p);
    add_pitch_drafts(&mut out, p);
    add_modulator_drafts(&mut out, p);
    add_causal_drafts(&mut out, p);
    add_script_drafts(&mut out, p);
    add_chip_drafts(&mut out, p, scope);
    add_automation_drafts(&mut out, p);
    assert(draft_views(out@) =~= program_drafts(*p));
    out
}

/// The size of the recipe at a place; zero where none is given.
pub open spec fn size_at(sizes: Seq<SerializedSize>, i: int) -> u64 {
    if 0 <= i < sizes.len() {
        sizes[i].0
    } else {
        0
    }
}

/// Whether the candidates are the drafts of the program in their places.
pub open spec fn realize_all(
    cs: Seq<RepresentationCandidate>,
    p: AnalyzedSidProgram,
    sizes: Seq<SerializedSize>,
) -> bool {
    &&& cs.len() == program_drafts(p).len()
    &&& forall|i: int|
        0 <= i < cs.len() ==> realizes(
            #[trigger] cs[i],
            program_drafts(p)[i],
            p,
            i,
            size_at(sizes, i),
        )
}

fn rank_loss(l: KnownLoss) -> (r: u8)
    ensures
        r == loss_rank(l),
{
    match l {
        KnownLoss::Exact => 0,
        KnownLoss::TimingBounded => 1,
        KnownLoss::StateApproximation => 2,
        KnownLoss::TopologyApproximation => 3,
        KnownLoss::RenderedFallback => 4,
    }
}

fn worst_loss(losses: &Vec<KnownLoss>) -> (r: KnownLoss)
    ensures
        r == greatest_loss(losses@),
{
    let mut worst: KnownLoss = KnownLoss::Exact;
    let mut i: usize = 0;
    assert(losses@.take(0) =~= Seq::<KnownLoss>::empty());
    while i < losses.len()
        invariant
            i <= losses@.len(),
            worst == greatest_loss(losses@.take(i as int)),
        decreases losses@.len() - i,
    {
        assert(losses@.take(i + 1).drop_last() =~= losses@.take(i as int));
        if rank_loss(losses[i]) >= rank_loss(worst) {
            worst = losses[i];
        }
        i += 1;
    }
    assert(losses@.take(losses@.len() as int) =~= losses@);
    worst
}

fn realize(d: Draft, scope: &CandidateScope, place: usize, size: u64) -> (r:
    RepresentationCandidate)
    requires
        ascending(scope.voices@),
    ensures
        forall|p: AnalyzedSidProgram|
            #![trigger program_scope(p)]
            scope.view() == program_scope(p) ==> realizes(r, d.view(), p, place as int, size),
{
    let known_loss: KnownLoss = worst_loss(&d.losses);
    RepresentationCandidate {
        id: CandidateId(place as u64),
        class: d.class,
        coverage: d.coverage,
        requirements: d.requirements,
        known_losses: d.losses,
        cost: EditCost {
            known_loss,
            editability: d.editability,
            graph_complexity: GraphComplexity(d.graph),
            automation_density: AutomationDensity(d.density),
            serialized_size: SerializedSize(size),
        },
        residuals: d.residuals,
        render_requirement: d.render,
        scope: copy_scope(scope),
        recipe: d.recipe,
    }
}

/// Builds all candidates of a program. The sizes are those of the written-out
/// recipes, in the order of [`candidate_recipes`].
pub fn build_candidates(p: &AnalyzedSidProgram, sizes: &[SerializedSize]) -> (r: Vec<
    RepresentationCandidate,
>)
    requires
        countable(*p),
    ensures
        realize_all(r@, *p, sizes@),
{
    let scope: CandidateScope = candidate_scope(p);
    let mut left: Vec<Draft> = drafts(p, &scope);
    let ghost all = program_drafts(*p);
    let mut out: Vec<RepresentationCandidate> = Vec::new();
    assert(all.skip(0) =~= all);
    while left.len() > 0
        invariant
            all == program_drafts(*p),
            scope.view() == program_scope(*p),
            ascending(scope.voices@),
            out@.len() <= all.len(),
            draft_views(left@) == all.skip(out@.len() as int),
            forall|i: int|
                0 <= i < out@.len() ==> realizes(
                    #[trigger] out@[i],
                    all[i],
                    *p,
                    i,
                    size_at(sizes@, i),
                ),
        decreases left@.len(),
    {
        let place: usize = out.len();
        let size: u64 = if place < sizes.len() {
            sizes[place].0
        } else {
            0
        };
        let ghost views = draft_views(left@);
        assert(views.len() == left@.len());
        let d: Draft = left.remove(0);
        proof {
            assert(views[0] == d.view());
            assert(views[0] == all[place as int]);
            assert(draft_views(left@) =~= views.skip(1));
            assert(all.skip(place as int).skip(1) =~= all.skip(place + 1));
        }
        out.push(realize(d, &scope, place, size));
    }
    assert(out@.len() == all.len()) by {
        assert(draft_views(left@).len() == 0);
    }
    out
}

/// The recipes of all candidates, for writing them out.
pub fn candidate_recipes(p: &AnalyzedSidProgram) -> (r: Vec<CandidateRecipe>)
    requires
        countable(*p),
    ensures
        r@.len() == program_drafts(*p).len(),
        forall|i: int|
            0 <= i < r@.len() ==> (#[trigger] r@[i]).view() == program_drafts(*p)[i].recipe,
{
    let scope: CandidateScope = candidate_scope(p);
    let mut left: Vec<Draft> = drafts(p, &scope);
    let ghost all = program_drafts(*p);
    let mut out: Vec<CandidateRecipe> = Vec::new();
    assert(all.skip(0) =~= all);
    while left.len() > 0
        invariant
            all == program_drafts(*p),
            out@.len() <= all.len(),
            draft_views(left@) == all.skip(out@.len() as int),
            forall|i: int| 0 <= i < out@.len() ==> (#[trigger] out@[i]).view() == all[i].recipe,
        decreases left@.len(),
    {
        let ghost views = draft_views(left@);
        assert(views.len() == left@.len());
        let ghost place = out@.len() as int;
        let d: Draft = left.remove(0);
        proof {
            assert(views[0] == d.view());
            assert(views[0] == all[place]);
            assert(draft_views(left@) =~= views.skip(1));
            assert(all.skip(place).skip(1) =~= all.skip(place + 1));
        }
        out.push(d.recipe);
    }
    assert(out@.len() == all.len()) by {
        assert(draft_views(left@).len() == 0);
    }
    out
}

} // verus!
