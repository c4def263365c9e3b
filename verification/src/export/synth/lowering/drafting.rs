//! What the candidates of a tune have to do with the tune.

use crate::analysis::program::{
    AnalyzedSidProgram, CausalDependency, CausalSupport, ContinuousOccurrence, EnvPhase,
    EnvelopePoint, EvidenceValidity, InterpretedSignalSource, SidBusAccess, SidBusEvent,
    SignalInterpretation, SignalInterpretationId, SignalInterpretationKind, SoundRegion,
    SoundRegionKind, TopologyEdgeKind, VoiceId, VoiceSignals,
};
use super::candidates::{
    automation_drafts, bounded_onset, causal_drafts, chip_drafts, chosen_ids, dense_deviation,
    envelope_drafts, greatest_loss, ids_where, modulator_drafts, needed_domains, pitch_drafts,
    program_drafts, program_fallbacks, program_scope, realizes, register_domains, script_drafts,
    sparse_deviation, voices_below, Choice, DraftView, RecipeView, RequirementView,
};
use super::choice::loses_no_more;
use super::evidence::{
    continuation_total, count_where, count_where_bounds, cross_voice_total, crosses_voices,
    digi_stream, digi_total, eligible, envelope_total, follow, history_total, in_digi_stream,
    noise_policy, noise_selected, noise_starts_of, onsets_of, oscillator_policy,
    oscillator_starts_of, over_voices, sounding_attacks, voice_write, waveform_change_total,
    waveform_total, NoiseStartPolicy, OnsetView, OscillatorStartPolicy,
};
use super::{
    BehaviorCapability, EditabilityClass, FallbackReason, KnownLoss, RenderRequirement,
    RepresentationCandidate, RepresentationClass, StateDomain,
};
use vstd::prelude::*;

verus! {

proof fn noise_bit(w: u8)
    ensures
        noise_selected(w) <==> w & 0x80 != 0,
{
    assert(w >= 0x80 <==> w & 0x80 != 0) by (bit_vector);
}

/// A domain is needed just where the tune uses it: the sound of every tune that plays, the
/// filter and its routing where they are set, noise where a voice selects it, a coupling
/// where voices sync or ring, a continuation where something goes on, and samples where the
/// tune streams them.
pub proof fn domains_are_needed_where_they_are_used(p: AnalyzedSidProgram)
    ensures
        ({
            let needed = needed_domains(p);
            &&& needed.contains(StateDomain::Pitch) <==> p.frame_count > 0
            &&& needed.contains(StateDomain::Amplitude) <==> p.frame_count > 0
            &&& needed.contains(StateDomain::GateRetrigger) <==> p.frame_count > 0
            &&& needed.contains(StateDomain::Waveform) <==> p.frame_count > 0
            &&& needed.contains(StateDomain::PulseWidth) <==> p.frame_count > 0
            &&& needed.contains(StateDomain::Filter) <==> p.chip.cutoff_points > 0
                || p.chip.resonance_points > 0 || p.chip.filter_mode_points > 0
            &&& needed.contains(StateDomain::Routing) <==> p.chip.routing_points > 0
            &&& needed.contains(StateDomain::CrossVoice) <==> exists|i: int|
                0 <= i < p.chip.edges@.len() && ((#[trigger] p.chip.edges@[i])
                    == TopologyEdgeKind::Sync || p.chip.edges@[i] == TopologyEdgeKind::Ring)
            &&& needed.contains(StateDomain::OscillatorContinuation) <==> exists|i: int|
                0 <= i < p.continuous@.len() && (#[trigger] p.continuous@[i]).continued
            &&& needed.contains(StateDomain::Digi) <==> exists|i: int|
                0 <= i < p.regions@.len() && (#[trigger] p.regions@[i]).kind
                    == SoundRegionKind::DigiStream
            &&& needed.contains(StateDomain::NoiseContinuation) <==> exists|i: int, j: int|
                #![trigger p.voices@[i].waveform@[j]]
                0 <= i < p.voices@.len() && 0 <= j < p.voices@[i].waveform@.len()
                    && p.voices@[i].waveform@[j] & 0x80 != 0
            &&& needed.contains(StateDomain::OnsetProgram) <==> onsets_of(p.events@).len() > 0
        }),
{
    let needed = needed_domains(p);
    let crosses = |e: TopologyEdgeKind| crosses_voices(e);
    let goes_on = |o: ContinuousOccurrence| o.continued;
    let noisy = |w: u8| noise_selected(w);
    count_where_bounds(p.chip.edges@, crosses);
    count_where_bounds(p.continuous@, goes_on);
    if exists|i: int|
        0 <= i < p.chip.edges@.len() && ((#[trigger] p.chip.edges@[i]) == TopologyEdgeKind::Sync
            || p.chip.edges@[i] == TopologyEdgeKind::Ring) {
        let i = choose|i: int|
            0 <= i < p.chip.edges@.len() && ((#[trigger] p.chip.edges@[i]) == TopologyEdgeKind::Sync
                || p.chip.edges@[i] == TopologyEdgeKind::Ring);
        assert(crosses(p.chip.edges@[i]));
    }
    if exists|i: int| 0 <= i < p.continuous@.len() && (#[trigger] p.continuous@[i]).continued {
        let i = choose|i: int|
            0 <= i < p.continuous@.len() && (#[trigger] p.continuous@[i]).continued;
        assert(goes_on(p.continuous@[i]));
    }
    assert forall|i: int| 0 <= i < p.voices@.len() implies (count_where(
        (#[trigger] p.voices@[i]).waveform@,
        |w: u8| noise_selected(w),
    ) > 0 <==> exists|j: int|
        0 <= j < p.voices@[i].waveform@.len() && #[trigger] p.voices@[i].waveform@[j] & 0x80 != 0) by {
        let s = p.voices@[i].waveform@;
        count_where_bounds(s, noisy);
        assert forall|j: int| 0 <= j < s.len() implies (noisy(#[trigger] s[j]) <==> s[j] & 0x80 != 0) by {
            noise_bit(s[j]);
        }
    }
}

/// What a class of candidates may do and needs, whatever the tune.
pub open spec fn keeps_to_its_class(d: DraftView) -> bool {
    match d.class {
        RepresentationClass::NativeAdsr => {
            &&& forall|x: StateDomain| #[trigger]
                d.coverage.contains(x) <==> x is Amplitude || x is GateRetrigger
            &&& d.requirements == seq![RequirementView::Module("envelope"@)]
            &&& d.losses.len() == 0
            &&& d.editability is Native
        },
        RepresentationClass::NormalizedAdsr => {
            &&& forall|x: StateDomain| #[trigger]
                d.coverage.contains(x) <==> x is Amplitude || x is GateRetrigger
            &&& d.requirements == seq![RequirementView::Module("envelope"@)]
            &&& d.losses.len() == 0
            &&& d.editability is Native
        },
        RepresentationClass::Mseg => {
            &&& forall|x: StateDomain| #[trigger]
                d.coverage.contains(x) <==> x is Amplitude || x is GateRetrigger
            &&& d.requirements == seq![RequirementView::Module("mseg"@)]
            &&& d.losses.len() == 0
            &&& d.editability is Structured
        },
        RepresentationClass::Arpeggiator => {
            &&& forall|x: StateDomain| #[trigger] d.coverage.contains(x) <==> x is Pitch
            &&& d.requirements.len() == 0 && d.losses.len() == 0 && d.editability is Native
        },
        RepresentationClass::Glide => {
            &&& forall|x: StateDomain| #[trigger] d.coverage.contains(x) <==> x is Pitch
            &&& d.requirements.len() == 0 && d.losses.len() == 0 && d.editability is Native
        },
        RepresentationClass::Lfo => {
            &&& d.requirements == seq![
                RequirementView::Module("lfo"@),
                RequirementView::Behavior(BehaviorCapability::GateRetrigger),
            ]
            &&& d.losses.len() == 0 && d.editability is Native
        },
        RepresentationClass::KineticModulator => {
            &&& d.requirements == seq![RequirementView::Module("kinetic_modulator"@)]
            &&& d.losses.len() == 0 && d.editability is Structured
        },
        RepresentationClass::DirectCv => d.requirements.len() == 0 && d.losses.len() == 0
            && d.editability is Structured,
        RepresentationClass::ModMatrix => d.requirements == seq![
            RequirementView::Module("mod_matrix"@),
        ] && d.losses.len() == 0 && d.editability is Structured,
        RepresentationClass::Script => d.requirements.len() > 0 && d.requirements[0]
            == RequirementView::Module("script"@) && d.losses.len() == 0 && d.editability is Scripted,
        RepresentationClass::SidOscillator => {
            &&& forall|x: StateDomain| #[trigger]
                d.coverage.contains(x) <==> x is Waveform || x is PulseWidth
            &&& d.requirements == seq![RequirementView::Module("sid_oscillator"@)]
            &&& d.losses == seq![KnownLoss::StateApproximation]
            &&& d.editability is Native
        },
        RepresentationClass::SidSequence => {
            &&& forall|x: StateDomain| #[trigger]
                d.coverage.contains(x) <==> x is OnsetProgram || x is GateRetrigger || x is Waveform
                    || x is PulseWidth || x is OscillatorContinuation || x is NoiseContinuation
                    || x is CrossVoice
            &&& d.requirements.len() > 0 && d.requirements[0] == RequirementView::Module(
                "sid_oscillator"@,
            )
            &&& d.losses.len() <= 1 && (d.losses.len() == 1 ==> d.losses[0]
                == KnownLoss::TimingBounded)
            &&& d.editability is Native
        },
        RepresentationClass::SharedFilter => {
            &&& forall|x: StateDomain| #[trigger]
                d.coverage.contains(x) <==> x is Filter || x is Routing
            &&& d.requirements == seq![
                RequirementView::Module("filter"@),
                RequirementView::Behavior(BehaviorCapability::DynamicRouting),
                RequirementView::Behavior(BehaviorCapability::ChipScopedFilter),
            ]
            &&& d.losses.len() == 0 && d.editability is Native
        },
        RepresentationClass::Sampler => {
            &&& forall|x: StateDomain| #[trigger] d.coverage.contains(x) <==> x is Digi
            &&& d.requirements == seq![
                RequirementView::Module("sampler"@),
                RequirementView::Behavior(BehaviorCapability::BundleSampleLoading),
            ]
            &&& d.losses == seq![KnownLoss::RenderedFallback]
            &&& d.editability is Rendered
        },
        RepresentationClass::SparseAutomation => d.requirements.len() == 0 && d.losses == seq![
            KnownLoss::TimingBounded,
        ] && d.editability is SparseAutomation,
        RepresentationClass::DenseAutomation => d.requirements.len() == 0 && d.losses == seq![
            KnownLoss::TimingBounded,
            KnownLoss::StateApproximation,
            KnownLoss::TopologyApproximation,
        ] && d.editability is DenseAutomation,
    }
}

proof fn parts_keep_to_their_class(p: AnalyzedSidProgram)
    ensures
        forall|i: int|
            0 <= i < envelope_drafts(p).len() ==> keeps_to_its_class(
                #[trigger] envelope_drafts(p)[i],
            ),
        forall|i: int|
            0 <= i < pitch_drafts(p).len() ==> keeps_to_its_class(#[trigger] pitch_drafts(p)[i]),
        forall|i: int|
            0 <= i < modulator_drafts(p).len() ==> keeps_to_its_class(
                #[trigger] modulator_drafts(p)[i],
            ),
        forall|i: int|
            0 <= i < causal_drafts(p).len() ==> keeps_to_its_class(#[trigger] causal_drafts(p)[i]),
        forall|i: int|
            0 <= i < script_drafts(p).len() ==> keeps_to_its_class(#[trigger] script_drafts(p)[i]),
{
}

proof fn chip_parts_keep_to_their_class(p: AnalyzedSidProgram)
    ensures
        forall|i: int|
            0 <= i < chip_drafts(p).len() ==> keeps_to_its_class(#[trigger] chip_drafts(p)[i]),
        forall|i: int|
            0 <= i < automation_drafts(p).len() ==> keeps_to_its_class(
                #[trigger] automation_drafts(p)[i],
            ),
{
    oscillator_keeps_to_its_class(p);
    sequence_keeps_to_its_class(p);
    filter_keeps_to_its_class(p);
    sampler_keeps_to_its_class(p);
    automation_keeps_to_its_class(p);
    let c = chip_drafts(p);
    assert forall|i: int| 0 <= i < c.len() implies keeps_to_its_class(#[trigger] c[i]) by {
        assert(i == 0 || i == 1 || i == 2 || i == 3);
    }
}

proof fn oscillator_keeps_to_its_class(p: AnalyzedSidProgram)
    ensures
        keeps_to_its_class(chip_drafts(p)[0]),
        chip_drafts(p).len() == 3 || chip_drafts(p).len() == 4,
{
    let d = chip_drafts(p)[0];
    assert(d.class == RepresentationClass::SidOscillator);
    assert(d.losses =~= seq![KnownLoss::StateApproximation]);
    assert(d.requirements =~= seq![RequirementView::Module("sid_oscillator"@)]);
}

proof fn sequence_keeps_to_its_class(p: AnalyzedSidProgram)
    ensures
        keeps_to_its_class(chip_drafts(p)[1]),
{
    let d = chip_drafts(p)[1];
    assert(d.class == RepresentationClass::SidSequence);
    assert(d.requirements[0] == RequirementView::Module("sid_oscillator"@));
}

proof fn filter_keeps_to_its_class(p: AnalyzedSidProgram)
    ensures
        keeps_to_its_class(chip_drafts(p)[2]),
{
    let d = chip_drafts(p)[2];
    assert(d.class == RepresentationClass::SharedFilter);
    assert(d.requirements =~= seq![
        RequirementView::Module("filter"@),
        RequirementView::Behavior(BehaviorCapability::DynamicRouting),
        RequirementView::Behavior(BehaviorCapability::ChipScopedFilter),
    ]);
}

proof fn sampler_keeps_to_its_class(p: AnalyzedSidProgram)
    ensures
        chip_drafts(p).len() == 4 ==> keeps_to_its_class(chip_drafts(p)[3]),
{
    if chip_drafts(p).len() == 4 {
        let d = chip_drafts(p)[3];
        assert(d.class == RepresentationClass::Sampler);
        assert(d.losses =~= seq![KnownLoss::RenderedFallback]);
        assert(d.requirements =~= seq![
            RequirementView::Module("sampler"@),
            RequirementView::Behavior(BehaviorCapability::BundleSampleLoading),
        ]);
    }
}

proof fn automation_keeps_to_its_class(p: AnalyzedSidProgram)
    ensures
        automation_drafts(p).len() == 2,
        keeps_to_its_class(automation_drafts(p)[0]),
        keeps_to_its_class(automation_drafts(p)[1]),
{
    let d = automation_drafts(p);
    assert(d[0].class == RepresentationClass::SparseAutomation);
    assert(d[1].class == RepresentationClass::DenseAutomation);
}

/// Every candidate of a tune covers what its class can play, asks for what its class needs,
/// and admits what its class loses.
pub proof fn candidates_keep_to_their_class(p: AnalyzedSidProgram, i: int)
    requires
        0 <= i < program_drafts(p).len(),
    ensures
        keeps_to_its_class(program_drafts(p)[i]),
{
    parts_keep_to_their_class(p);
    chip_parts_keep_to_their_class(p);
}

/// The last two candidates are automation. They cover every domain that the tune needs and
/// ask nothing of the target; the very last is the baseline that needs no rendering.
pub proof fn automation_covers_every_tune(p: AnalyzedSidProgram)
    ensures
        ({
            let d = program_drafts(p);
            let n = d.len() as int;
            &&& n >= 9
            &&& d[n - 1].class == RepresentationClass::DenseAutomation
            &&& d[n - 2].class == RepresentationClass::SparseAutomation
            &&& d[n - 1].render == RenderRequirement::PinnedBaseline
            &&& forall|i: int|
                0 <= i < n - 1 ==> (#[trigger] d[i]).render == RenderRequirement::Required
            &&& forall|x: StateDomain| #[trigger]
                needed_domains(p).contains(x) ==> d[n - 1].coverage.contains(x) && d[n
                    - 2].coverage.contains(x)
            &&& d[n - 1].requirements.len() == 0 && d[n - 2].requirements.len() == 0
        }),
{
}

proof fn id_is_chosen(
    s: Seq<SignalInterpretation>,
    f: spec_fn(SignalInterpretation) -> bool,
    i: int,
)
    requires
        0 <= i < s.len(),
        f(s[i]),
    ensures
        ids_where(s, f).contains(s[i].id),
    decreases s.len(),
{
    let all = ids_where(s, f);
    if i < s.len() - 1 {
        let t = s.drop_last();
        assert(t[i] == s[i]);
        id_is_chosen(t, f, i);
        let before = ids_where(t, f);
        let k = choose|k: int| 0 <= k < before.len() && before[k] == s[i].id;
        assert(all[k] == s[i].id);
    } else {
        assert(all[all.len() - 1] == s[i].id);
    }
}

proof fn chosen_id_is_one(
    s: Seq<SignalInterpretation>,
    f: spec_fn(SignalInterpretation) -> bool,
    k: int,
) -> (i: int)
    requires
        0 <= k < ids_where(s, f).len(),
    ensures
        0 <= i < s.len(),
        f(s[i]),
        s[i].id == ids_where(s, f)[k],
    decreases s.len(),
{
    let t = s.drop_last();
    let before = ids_where(t, f);
    if k < before.len() {
        let i = chosen_id_is_one(t, f, k);
        assert(t[i] == s[i]);
        i
    } else {
        s.len() - 1
    }
}

/// A pitch that repeats is offered as an arpeggio, one that slides as a glide; any signal
/// that repeats as an oscillation, one that slides as a movement, and one of steps as a
/// script.
pub proof fn interpretations_are_offered(p: AnalyzedSidProgram, c: Choice, i: int)
    requires
        0 <= i < p.interpretations@.len(),
    ensures
        ({
            let x = p.interpretations@[i];
            let pitch = x.source == InterpretedSignalSource::VoiceFrequency;
            let fits = match c {
                Choice::PitchPeriodic => pitch && x.kind == SignalInterpretationKind::Periodic,
                Choice::PitchRamp => pitch && x.kind == SignalInterpretationKind::Ramp,
                Choice::Periodic => x.kind == SignalInterpretationKind::Periodic,
                Choice::Ramp => x.kind == SignalInterpretationKind::Ramp,
                Choice::Tabular => x.kind == SignalInterpretationKind::Table || x.kind
                    == SignalInterpretationKind::BoundedScript,
            };
            fits ==> chosen_ids(p, c).contains(x.id)
        }),
        chosen_ids(p, Choice::PitchPeriodic).len() > 0 ==> program_drafts(p)[4].recipe
            == (RecipeView::Arpeggiator { interpretations: chosen_ids(p, Choice::PitchPeriodic) }),
{
    let x = p.interpretations@[i];
    let f = |y: SignalInterpretation| c.includes(y);
    if c.includes(x) {
        assert(f(x));
        id_is_chosen(p.interpretations@, f, i);
    }
}

/// What is offered for a shape is an interpretation of that shape.
pub proof fn offers_have_their_shape(p: AnalyzedSidProgram, c: Choice, k: int) -> (j: int)
    requires
        0 <= k < chosen_ids(p, c).len(),
    ensures
        0 <= j < p.interpretations@.len(),
        p.interpretations@[j].id == chosen_ids(p, c)[k],
        ({
            let x = p.interpretations@[j];
            let pitch = x.source == InterpretedSignalSource::VoiceFrequency;
            match c {
                Choice::PitchPeriodic => pitch && x.kind == SignalInterpretationKind::Periodic,
                Choice::PitchRamp => pitch && x.kind == SignalInterpretationKind::Ramp,
                Choice::Periodic => x.kind == SignalInterpretationKind::Periodic,
                Choice::Ramp => x.kind == SignalInterpretationKind::Ramp,
                Choice::Tabular => x.kind == SignalInterpretationKind::Table || x.kind
                    == SignalInterpretationKind::BoundedScript,
            }
        }),
{
    chosen_id_is_one(p.interpretations@, |y: SignalInterpretation| c.includes(y), k)
}

/// The loss that a candidate is charged with is the worst of those that it admits; without
/// any it loses nothing.
pub proof fn the_worst_loss_counts(losses: Seq<KnownLoss>, i: int)
    requires
        0 <= i < losses.len(),
    ensures
        loses_no_more(losses[i], greatest_loss(losses)),
        losses.contains(greatest_loss(losses)),
        greatest_loss(Seq::empty()) == KnownLoss::Exact,
    decreases losses.len(),
{
    let t = losses.drop_last();
    assert(losses.last() == losses[losses.len() - 1]);
    if t.len() > 0 {
        the_worst_loss_counts(
            t,
            if i < t.len() {
                i
            } else {
                0
            },
        );
        let k = choose|k: int| 0 <= k < t.len() && t[k] == greatest_loss(t);
        assert(losses[k] == t[k]);
        if i < t.len() {
            assert(t[i] == losses[i]);
        }
    } else {
        assert(greatest_loss(t) == KnownLoss::Exact);
    }
}

/// A dependency counts as a cause only where a transformed value reaches one register
/// alone, not by chance, and with evidence that can be relied on by three quarters at least.
pub proof fn causes_are_well_supported(d: CausalDependency)
    ensures
        eligible(d) <==> {
            &&& d.support == CausalSupport::ProducerTransformConsumer
            &&& d.consumers@.len() == 1
            &&& !d.random_source
            &&& exists|i: int|
                0 <= i < d.evidence@.len() && (#[trigger] d.evidence@[i]).confidence >= 750
                    && d.evidence@[i].validity != EvidenceValidity::Invalid
        },
{
    if exists|i: int|
        0 <= i < d.evidence@.len() && (#[trigger] d.evidence@[i]).confidence >= 750
            && d.evidence@[i].validity != EvidenceValidity::Invalid {
        let i = choose|i: int|
            0 <= i < d.evidence@.len() && (#[trigger] d.evidence@[i]).confidence >= 750
                && d.evidence@[i].validity != EvidenceValidity::Invalid;
        assert(super::evidence::strong(d.evidence@[i]));
    }
}

/// A register drives what it sets: of each voice the first two its pitch, the next two its
/// pulse width, the fifth its waveform and what couples it, the last two its level; then
/// come the filter's cutoff, its routing, and the volume with the filter's mode.
pub proof fn registers_drive_what_they_set(v: u8, k: u8, d: StateDomain)
    requires
        v < 3,
        k < 7,
    ensures
        register_domains((7 * v + k) as u8).contains(d) <==> (if k < 2 {
            d is Pitch
        } else if k < 4 {
            d is PulseWidth
        } else if k == 4 {
            d is Waveform || d is CrossVoice
        } else {
            d is Amplitude
        }),
        register_domains(0x15).contains(d) <==> d is Filter,
        register_domains(0x16).contains(d) <==> d is Filter,
        register_domains(0x17).contains(d) <==> d is Filter || d is Routing,
        register_domains(0x18).contains(d) <==> d is Amplitude || d is Filter || d is Digi,
        !register_domains(0x19).contains(d),
        !register_domains(0x1B).contains(d),
        !register_domains(0x1C).contains(d),
{
}

/// Whether an event writes a register of the primary chip.
pub open spec fn writes_register(e: SidBusEvent, register: int) -> bool {
    e.chip.0 == 0 && e.access == SidBusAccess::Write && e.register is Some && (e.register->0).0
        == register
}

proof fn followers_are_three(events: Seq<SidBusEvent>, n: nat)
    requires
        n <= events.len(),
    ensures
        follow(events, n).0.len() == 3,
        forall|v: int| 0 <= v < 3 ==> (#[trigger] follow(events, n).0[v]).registers.len() == 7,
    decreases n,
{
    if n > 0 {
        followers_are_three(events, (n - 1) as nat);
    }
}

/// A voice is gated as the last write to its control register says, and released before the
/// first; each of its registers holds what was written to it last.
pub proof fn voices_hold_what_was_written_last(
    events: Seq<SidBusEvent>,
    n: nat,
    v: int,
    k: int,
    i: int,
)
    requires
        n <= events.len(),
        0 <= v < 3,
        0 <= k < 7,
    ensures
        0 <= i < n && writes_register(events[i], 7 * v + k) && (forall|j: int|
            i < j < n ==> !writes_register(#[trigger] events[j], 7 * v + k)) ==> {
            &&& follow(events, n).0[v].registers[k] == events[i].value
            &&& k == 4 ==> (follow(events, n).0[v].gate <==> events[i].value & 1 != 0)
        },
        (forall|j: int| 0 <= j < n ==> !writes_register(#[trigger] events[j], 7 * v + k)) ==> {
            &&& follow(events, n).0[v].registers[k] == 0
            &&& k == 4 ==> !follow(events, n).0[v].gate
        },
    decreases n,
{
    if n > 0 {
        let m = (n - 1) as nat;
        followers_are_three(events, m);
        followers_are_three(events, n);
        voices_hold_what_was_written_last(events, m, v, k, i);
        let e = events[n - 1];
        let x = e.value;
        assert(x % 2 == 1 <==> x & 1 != 0) by (bit_vector);
        if writes_register(e, 7 * v + k) {
            assert(voice_write(e) == Some((v, k)));
            if i < n - 1 && 0 <= i {
                assert(writes_register(events[n - 1], 7 * v + k));
            }
        } else if voice_write(e) is Some {
            let w = voice_write(e)->0;
            assert(7 * w.0 + w.1 == (e.register->0).0);
            assert(w.0 != v || w.1 != k);
        }
        if 0 <= i < n - 1 && (forall|j: int|
            i < j < n ==> !writes_register(#[trigger] events[j], 7 * v + k)) {
            assert(!writes_register(events[n - 1], 7 * v + k));
        }
        if forall|j: int| 0 <= j < n ==> !writes_register(#[trigger] events[j], 7 * v + k) {
            assert(!writes_register(events[n - 1], 7 * v + k));
        }
    }
}

/// An onset is found just where a write raises the voice gate of a voice that was not gated; it
/// names the voice, the call and the write. No other event makes one.
pub proof fn rising_gates_are_onsets(events: Seq<SidBusEvent>, n: nat, v: int)
    requires
        n < events.len(),
        0 <= v < 3,
    ensures
        ({
            let e = events[n as int];
            let before = follow(events, n);
            let after = follow(events, n + 1);
            &&& writes_register(e, 7 * v + 4) && e.value & 1 != 0 && !before.0[v].gate ==> {
                &&& after.1.len() == before.1.len() + 1
                &&& after.1.last().voice == VoiceId((v + 1) as u8)
                &&& after.1.last().call == e.call
                &&& after.1.last().trigger == e.id
                &&& after.1.last().writes.contains(e.id)
                &&& after.1.drop_last() == before.1
            }
            &&& (e.value & 1 == 0 || !(writes_register(e, 4) || writes_register(e, 11)
                || writes_register(e, 18))) ==> after.1 == before.1
            &&& writes_register(e, 7 * v + 4) && before.0[v].gate ==> after.1 == before.1
        }),
{
    let e = events[n as int];
    let x = e.value;
    assert(x % 2 == 1 <==> x & 1 != 0) by (bit_vector);
    followers_are_three(events, n);
    let before = follow(events, n);
    let after = follow(events, n + 1);
    if writes_register(e, 7 * v + 4) {
        assert(voice_write(e) == Some((v, 4int)));
        if x & 1 != 0 && !before.0[v].gate {
            let w = after.1.last().writes;
            assert(w[w.len() - 1] == e.id);
            assert(after.1.drop_last() =~= before.1);
        }
    }
    if voice_write(e) is Some {
        let w = voice_write(e)->0;
        assert(7 * w.0 + w.1 == (e.register->0).0);
        if w.1 == 4 {
            assert(w.0 == 0 || w.0 == 1 || w.0 == 2);
        }
    }
}

/// How an occurrence starts its oscillator and its noise: unknown where the noise was
/// disturbed, continued where it goes on, reset where the chip reset it, and else free or in
/// a known state.
pub proof fn starts_are_told_by_the_chip(o: ContinuousOccurrence)
    ensures
        ({
            let a = oscillator_policy(o);
            let b = noise_policy(o);
            let c = o.oscillator;
            &&& a == OscillatorStartPolicy::Unknown <==> c.noise_poisoned
            &&& b == NoiseStartPolicy::Unknown <==> c.noise_poisoned
            &&& a == OscillatorStartPolicy::LegatoContinued <==> !c.noise_poisoned
                && o.continues_previous
            &&& b == NoiseStartPolicy::LegatoContinued <==> !c.noise_poisoned
                && o.continues_previous
            &&& a == OscillatorStartPolicy::TestReset <==> !c.noise_poisoned
                && !o.continues_previous && c.test_or_reset
            &&& b == NoiseStartPolicy::TestReset <==> !c.noise_poisoned && !o.continues_previous && (
            c.test_or_reset || o.control & 0x08 != 0)
            &&& a == OscillatorStartPolicy::SyncReset <==> !c.noise_poisoned
                && !o.continues_previous && !c.test_or_reset && c.accumulator == 0 && c.sync_resets
                > 0
            &&& a == OscillatorStartPolicy::ExplicitState ==> o.start == 0
            &&& a == OscillatorStartPolicy::FreeRunning ==> o.start > 0
            &&& b == NoiseStartPolicy::Seeded ==> c.noise_shift_register == 0x003F_FFFF
            &&& b == NoiseStartPolicy::FreeRunning ==> c.noise_shift_register != 0x003F_FFFF
        }),
{
    let x = o.control;
    assert(x / 8 % 2 == 1 <==> x & 0x08 != 0) by (bit_vector);
}

/// Every occurrence on a voice starts an oscillator, and one that selects noise starts the
/// noise as well; one on no voice starts nothing.
pub proof fn every_occurrence_on_a_voice_starts(s: Seq<ContinuousOccurrence>, o: ContinuousOccurrence)
    ensures
        ({
            let a = oscillator_starts_of(s);
            let b = noise_starts_of(s);
            let c = oscillator_starts_of(s.push(o));
            let d = noise_starts_of(s.push(o));
            &&& o.voice is None ==> c == a && d == b
            &&& o.voice is Some ==> {
                &&& c.len() == a.len() + 1
                &&& c.drop_last() == a
                &&& c.last().occurrence == o.id
                &&& c.last().voice == o.voice->0
                &&& c.last().policy == oscillator_policy(o)
            }
            &&& o.voice is Some && o.control & 0x80 != 0 ==> {
                &&& d.len() == b.len() + 1
                &&& d.drop_last() == b
                &&& d.last().occurrence == o.id
                &&& d.last().voice == o.voice->0
                &&& d.last().policy == noise_policy(o)
            }
            &&& o.control & 0x80 == 0 ==> d == b
        }),
{
    noise_bit(o.control);
    assert(s.push(o).drop_last() =~= s);
    assert(oscillator_starts_of(s.push(o)).drop_last() =~= oscillator_starts_of(s) || o.voice
        is None);
    assert(noise_starts_of(s.push(o)).drop_last() =~= noise_starts_of(s) || o.voice is None || o.control
        & 0x80 == 0);
}

/// An attack depends on what came before it where the envelope was not at rest; each such
/// attack counts once.
pub proof fn attacks_on_sounding_envelopes_count(s: Seq<EnvelopePoint>, x: EnvelopePoint)
    ensures
        sounding_attacks(s.push(x)) == sounding_attacks(s) + (if s.len() > 0 && s.last().level > 0
            && x.phase == EnvPhase::Attack {
            1int
        } else {
            0
        }),
        sounding_attacks(Seq::empty()) == 0,
{
    let t = s.push(x);
    assert(t.drop_last() =~= s);
    if s.len() > 0 {
        assert(t[t.len() - 2] == s.last());
    }
}

proof fn voices_add_up(s: Seq<VoiceSignals>, v: VoiceSignals, f: spec_fn(VoiceSignals) -> nat)
    ensures
        over_voices(s.push(v), f) == over_voices(s, f) + f(v),
{
    assert(s.push(v).drop_last() =~= s);
}

/// What a tune has of something is the sum over its voices: a further voice adds the points
/// of its envelope, those of its waveform, the changes between these, and its attacks on a
/// sounding envelope.
pub proof fn totals_add_up_over_voices(p: AnalyzedSidProgram, q: AnalyzedSidProgram, v: VoiceSignals)
    requires
        q.voices@ == p.voices@.push(v),
    ensures
        envelope_total(q) == envelope_total(p) + v.envelope@.len(),
        waveform_total(q) == waveform_total(p) + v.waveform@.len(),
        waveform_change_total(q) == waveform_change_total(p) + (if v.waveform@.len() > 0 {
            v.waveform@.len() - 1
        } else {
            0
        }),
        history_total(q) == history_total(p) + sounding_attacks(v.envelope@),
{
    voices_add_up(p.voices@, v, |v: VoiceSignals| v.envelope@.len());
    voices_add_up(p.voices@, v, |v: VoiceSignals| v.waveform@.len());
    voices_add_up(
        p.voices@,
        v,
        |v: VoiceSignals|
            if v.waveform@.len() > 0 {
                (v.waveform@.len() - 1) as nat
            } else {
                0
            },
    );
    voices_add_up(p.voices@, v, |v: VoiceSignals| sounding_attacks(v.envelope@));
}

/// A sample counts just where it was written within a region that streams samples, its
/// start included and its end not.
pub proof fn samples_count_within_their_stream(regions: Seq<SoundRegion>, at: u64)
    ensures
        in_digi_stream(regions, at) <==> exists|i: int|
            0 <= i < regions.len() && (#[trigger] regions[i]).kind == SoundRegionKind::DigiStream
                && regions[i].start <= at && at < regions[i].end,
{
}

proof fn voices_below_are(p: AnalyzedSidProgram, k: int)
    requires
        0 <= k <= 256,
    ensures
        forall|v: VoiceId|
            #[trigger] voices_below(p, k).contains(v) <==> v.0 < k && (exists|i: int|
                0 <= i < p.voices@.len() && (#[trigger] p.voices@[i]).voice == v),
        forall|i: int, j: int|
            0 <= i < j < voices_below(p, k).len() ==> (#[trigger] voices_below(p, k)[i]).0 < (
            #[trigger] voices_below(p, k)[j]).0,
    decreases k,
{
    if k > 0 {
        voices_below_are(p, k - 1);
        let before = voices_below(p, k - 1);
        let all = voices_below(p, k);
        let x = VoiceId((k - 1) as u8);
        assert forall|v: VoiceId| #[trigger] all.contains(v) <==> v.0 < k && (exists|i: int|
            0 <= i < p.voices@.len() && (#[trigger] p.voices@[i]).voice == v) by {
            if all.contains(v) {
                let i = choose|i: int| 0 <= i < all.len() && all[i] == v;
                if i < before.len() {
                    assert(before[i] == v);
                    assert(before.contains(v));
                }
            }
            if before.contains(v) {
                let i = choose|i: int| 0 <= i < before.len() && before[i] == v;
                assert(all[i] == v);
            }
            if v.0 == k - 1 {
                assert(v == x);
                if super::candidates::has_voice(p, x) {
                    assert(all[all.len() - 1] == x);
                }
            }
        }
        assert forall|i: int, j: int| 0 <= i < j < all.len() implies (#[trigger] all[i]).0 < (
        #[trigger] all[j]).0 by {
            assert(before.contains(before[i]));
            if j < before.len() {
                assert(before[i].0 < before[j].0);
            }
        }
    }
}

/// The scope of a candidate names the voices of the tune, each once and in order, and all of
/// its regions, definitions, occurrences and interpretations in theirs.
pub proof fn scopes_name_all_of_the_tune(p: AnalyzedSidProgram, v: VoiceId)
    ensures
        ({
            let s = program_scope(p);
            &&& s.voices.contains(v) <==> exists|i: int|
                0 <= i < p.voices@.len() && (#[trigger] p.voices@[i]).voice == v
            &&& forall|i: int, j: int|
                0 <= i < j < s.voices.len() ==> (#[trigger] s.voices[i]).0 < (
                #[trigger] s.voices[j]).0
            &&& s.regions.len() == p.regions@.len()
            &&& forall|i: int|
                0 <= i < p.regions@.len() ==> #[trigger] s.regions[i] == p.regions@[i].id
            &&& s.interpretations.len() == p.interpretations@.len()
            &&& forall|i: int|
                0 <= i < p.interpretations@.len() ==> #[trigger] s.interpretations[i]
                    == p.interpretations@[i].id
            &&& s.continuous_occurrences.len() == p.continuous@.len()
            &&& forall|i: int|
                0 <= i < p.continuous@.len() ==> #[trigger] s.continuous_occurrences[i]
                    == p.continuous@[i].id
            &&& s.definitions == p.definitions@
            &&& s.occurrences == p.occurrences@
            &&& s.reuse_groups == p.reuse_groups@
        }),
{
    voices_below_are(p, 256);
}

/// The baseline admits every deviation that a tune can show: it is free of them just where
/// the tune has no onsets, no attacks on sounding envelopes, no changes of waveform, nothing
/// continued, no noise, no filter, no coupling and no samples.
pub proof fn the_baseline_admits_what_it_misses(p: AnalyzedSidProgram)
    requires
        onsets_of(p.events@).len() <= u64::MAX,
        history_total(p) <= u64::MAX,
    ensures
        ({
            let d = dense_deviation(p);
            &&& d.onset_program.0 == onsets_of(p.events@).len()
            &&& d.gate_retrigger.0 == history_total(p)
            &&& d.routing.0 == p.chip.routing_points
            &&& d.maximum_pitch.0 == 0 && d.maximum_level.0 == 0 && d.pulse_width.0 == 0
        }),
        ({
            let s = sparse_deviation(p);
            &&& s.onset_program.0 == 0 && s.gate_retrigger.0 == 0 && s.routing.0 == 0
            &&& s.maximum_pitch.0 == 100_000 <==> exists|i: int|
                0 <= i < p.interpretations@.len() && ((#[trigger] p.interpretations@[i]).kind
                    == SignalInterpretationKind::Table || p.interpretations@[i].kind
                    == SignalInterpretationKind::BoundedScript) && p.interpretations@[i].source
                    == InterpretedSignalSource::VoiceFrequency
            &&& s.maximum_pitch.0 == 0 || s.maximum_pitch.0 == 100_000
            &&& s.maximum_level.0 == 0 || s.maximum_level.0 == 100
        }),
{
    if exists|i: int|
        0 <= i < p.interpretations@.len() && ((#[trigger] p.interpretations@[i]).kind
            == SignalInterpretationKind::Table || p.interpretations@[i].kind
            == SignalInterpretationKind::BoundedScript) && p.interpretations@[i].source
            == InterpretedSignalSource::VoiceFrequency {
        let i = choose|i: int|
            0 <= i < p.interpretations@.len() && ((#[trigger] p.interpretations@[i]).kind
                == SignalInterpretationKind::Table || p.interpretations@[i].kind
                == SignalInterpretationKind::BoundedScript) && p.interpretations@[i].source
                == InterpretedSignalSource::VoiceFrequency;
        assert(super::candidates::tabular(p.interpretations@[i]));
    }
}

/// A tune falls back to automation for just those reasons that hold of it.
pub proof fn fallbacks_name_their_reasons(p: AnalyzedSidProgram, reason: FallbackReason)
    ensures
        program_fallbacks(p).contains(reason) <==> match reason {
            FallbackReason::InstructionStartTiming => bounded_onset(onsets_of(p.events@)),
            FallbackReason::EnvelopeHistory => history_total(p) > 0,
            FallbackReason::OscillatorContinuation => continuation_total(p) > 0,
            FallbackReason::NoiseContinuation => noise_starts_of(p.continuous@).len() > 0,
            FallbackReason::VoiceLocalFilter => p.chip.cutoff_points > 0 || p.chip.routing_points
                > 0,
            FallbackReason::CrossVoiceTopology => cross_voice_total(p) > 0,
            FallbackReason::AmbiguousCausalModulation => exists|i: int|
                0 <= i < p.dependencies@.len() && !eligible(#[trigger] p.dependencies@[i]),
            FallbackReason::RandomModulation => exists|i: int|
                0 <= i < p.dependencies@.len() && (#[trigger] p.dependencies@[i]).random_source,
            FallbackReason::DigiUnsupported => digi_stream(p),
        },
{
    let a = super::candidates::only_if(
        bounded_onset(onsets_of(p.events@)),
        FallbackReason::InstructionStartTiming,
    );
    let b = super::candidates::only_if(history_total(p) > 0, FallbackReason::EnvelopeHistory);
    let c = super::candidates::only_if(
        continuation_total(p) > 0,
        FallbackReason::OscillatorContinuation,
    );
    let d = super::candidates::only_if(
        noise_starts_of(p.continuous@).len() > 0,
        FallbackReason::NoiseContinuation,
    );
    let e = super::candidates::only_if(
        p.chip.cutoff_points > 0 || p.chip.routing_points > 0,
        FallbackReason::VoiceLocalFilter,
    );
    let f = super::candidates::only_if(
        cross_voice_total(p) > 0,
        FallbackReason::CrossVoiceTopology,
    );
    let g = super::candidates::only_if(
        exists|i: int| 0 <= i < p.dependencies@.len() && !eligible(#[trigger] p.dependencies@[i]),
        FallbackReason::AmbiguousCausalModulation,
    );
    let h = super::candidates::only_if(
        exists|i: int|
            0 <= i < p.dependencies@.len() && (#[trigger] p.dependencies@[i]).random_source,
        FallbackReason::RandomModulation,
    );
    let i = super::candidates::only_if(digi_stream(p), FallbackReason::DigiUnsupported);
    joined_holds(a, b, reason);
    joined_holds(a + b, c, reason);
    joined_holds(a + b + c, d, reason);
    joined_holds(a + b + c + d, e, reason);
    joined_holds(a + b + c + d + e, f, reason);
    joined_holds(a + b + c + d + e + f, g, reason);
    joined_holds(a + b + c + d + e + f + g, h, reason);
    joined_holds(a + b + c + d + e + f + g + h, i, reason);
    single_holds(bounded_onset(onsets_of(p.events@)), FallbackReason::InstructionStartTiming, reason);
    single_holds(history_total(p) > 0, FallbackReason::EnvelopeHistory, reason);
    single_holds(continuation_total(p) > 0, FallbackReason::OscillatorContinuation, reason);
    single_holds(
        noise_starts_of(p.continuous@).len() > 0,
        FallbackReason::NoiseContinuation,
        reason,
    );
    single_holds(
        p.chip.cutoff_points > 0 || p.chip.routing_points > 0,
        FallbackReason::VoiceLocalFilter,
        reason,
    );
    single_holds(cross_voice_total(p) > 0, FallbackReason::CrossVoiceTopology, reason);
    single_holds(
        exists|i: int| 0 <= i < p.dependencies@.len() && !eligible(#[trigger] p.dependencies@[i]),
        FallbackReason::AmbiguousCausalModulation,
        reason,
    );
    single_holds(
        exists|i: int|
            0 <= i < p.dependencies@.len() && (#[trigger] p.dependencies@[i]).random_source,
        FallbackReason::RandomModulation,
        reason,
    );
    single_holds(digi_stream(p), FallbackReason::DigiUnsupported, reason);
}

proof fn joined_holds<A>(a: Seq<A>, b: Seq<A>, x: A)
    ensures
        (a + b).contains(x) <==> a.contains(x) || b.contains(x),
{
    let all = a + b;
    if a.contains(x) {
        let i = choose|i: int| 0 <= i < a.len() && a[i] == x;
        assert(all[i] == x);
    }
    if b.contains(x) {
        let i = choose|i: int| 0 <= i < b.len() && b[i] == x;
        assert(all[a.len() + i] == x);
    }
    if all.contains(x) {
        let i = choose|i: int| 0 <= i < all.len() && all[i] == x;
        if i < a.len() {
            assert(a[i] == x);
        } else {
            assert(b[i - a.len()] == x);
        }
    }
}

proof fn single_holds<A>(condition: bool, a: A, x: A)
    ensures
        super::candidates::only_if(condition, a).contains(x) <==> condition && x == a,
{
    let s = super::candidates::only_if(condition, a);
    if condition {
        assert(s[0] == a);
    }
}

} // verus!
