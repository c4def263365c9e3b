//! What candidates are weighed by: the usual budget, what each of them misses, and why one is
//! turned away.

use crate::analysis::program::{
    AnalyzedSidProgram, InterpretedSignalSource, SignalInterpretationId,
};
use super::candidates::{
    automation_drafts, bounded_onset, chip_drafts, envelope_drafts, interpretation_domains,
    program_fallbacks, sequence_requirements, RecipeView, RequirementView,
};
use super::evidence::{
    continuation_total, cross_voice_total, digi_stream, envelope_total, history_total,
    noise_starts_of, onsets_of, oscillator_starts_of, primary_total, waveform_change_total,
    waveform_total,
};
use super::{
    gate_rejection, listed, plain_budget, rank_is_injective, render_result, state_accepted,
    BehaviorCapability, CandidateDecision, CandidateRenderEvaluation, KnownLoss,
    RenderGateRejection, RenderRequirement, RepresentationCandidate, StateBudget, StateDomain,
    StateResiduals,
};
use vstd::prelude::*;

verus! {

/// The usual budget forgives half a semitone of pitch and 20 steps of level, and nothing
/// else. What misses nothing fits any budget, and what fits one fits any that forgives more.
pub proof fn the_usual_budget_is_strict(r: StateResiduals, a: StateBudget, b: StateBudget)
    ensures
        r.fits(plain_budget()) <==> {
            &&& r.maximum_pitch.0 <= 50_000
            &&& r.maximum_level.0 <= 20
            &&& r.onset_program.0 == 0 && r.gate_retrigger.0 == 0 && r.waveform.0 == 0
            &&& r.pulse_width.0 == 0 && r.oscillator_continuation.0 == 0
            &&& r.noise_continuation.0 == 0 && r.filter.0 == 0 && r.routing.0 == 0
            &&& r.cross_voice.0 == 0 && r.digi.0 == 0
        },
        StateResiduals::none().fits(a),
        r.fits(a) && a.onset_program.0 <= b.onset_program.0 && a.maximum_pitch.0
            <= b.maximum_pitch.0 && a.maximum_level.0 <= b.maximum_level.0 && a.gate_retrigger.0
            <= b.gate_retrigger.0 && a.waveform.0 <= b.waveform.0 && a.pulse_width.0
            <= b.pulse_width.0 && a.oscillator_continuation.0 <= b.oscillator_continuation.0
            && a.noise_continuation.0 <= b.noise_continuation.0 && a.filter.0 <= b.filter.0
            && a.routing.0 <= b.routing.0 && a.cross_voice.0 <= b.cross_voice.0 && a.digi.0
            <= b.digi.0 ==> r.fits(b),
{
}

/// A candidate that is turned away is told the first reason: the state it misses, then that
/// it was never rendered though it had to be, and then how it sounded.
pub proof fn refusals_name_the_first_reason(
    c: RepresentationCandidate,
    decisions: Seq<CandidateDecision>,
    evaluations: Seq<CandidateRenderEvaluation>,
)
    ensures
        ({
            let r = gate_rejection(c, decisions, evaluations);
            let valid = state_accepted(decisions, c.id);
            let rendered = render_result(evaluations, c.id);
            &&& r == Some(RenderGateRejection::StateGateRejected) <==> !valid
            &&& r == Some(RenderGateRejection::NotRendered) <==> valid && rendered is None
                && c.render_requirement == RenderRequirement::Required
            &&& r == Some(RenderGateRejection::AudioBudgetExceeded) <==> valid && rendered == Some(
                false,
            )
            &&& r is None <==> valid && (rendered == Some(true) || rendered is None
                && c.render_requirement != RenderRequirement::Required)
        }),
{
}

/// A plain envelope misses each attack on an envelope that still sounds; one that is driven
/// by the voice gate misses none. All have the points of all envelopes.
pub proof fn envelopes_miss_their_history(p: AnalyzedSidProgram, i: int)
    requires
        0 <= i < 4,
        envelope_total(p) <= u32::MAX,
        history_total(p) <= u64::MAX,
    ensures
        ({
            let d = envelope_drafts(p);
            &&& d.len() == 4
            &&& i < 3 ==> d[i].residuals.gate_retrigger.0 == history_total(p)
            &&& d[3].residuals.gate_retrigger.0 == 0
            &&& d[i].residuals.onset_program.0 == 0 && d[i].residuals.maximum_level.0 == 0
            &&& d[i].density == 0
            &&& d[0].graph == 1 && d[1].graph == 1 && d[2].graph == 1 && d[3].graph == 2
            &&& match d[i].recipe {
                RecipeView::NativeAdsr { points, entries } => i == 0 && points == envelope_total(p)
                    && entries == history_total(p),
                RecipeView::NormalizedAdsr { points, entries } => i == 1 && points
                    == envelope_total(p) && entries == history_total(p),
                RecipeView::Mseg { points, entries } => i == 2 && points == envelope_total(p)
                    && entries == history_total(p),
                RecipeView::GateDrivenEnvelope { points } => i == 3 && points == envelope_total(p),
                _ => false,
            }
        }),
{
}

/// Of what the chip itself can play, a single oscillator misses each change of waveform; a
/// sequence misses nothing but the exact time of onsets that are only known to lie in a
/// call; a shared filter is automated by its cutoffs; samples are offered only for a tune that
/// plays some.
pub proof fn chip_parts_miss_what_they_cannot_hold(p: AnalyzedSidProgram)
    requires
        waveform_total(p) <= u32::MAX,
        waveform_change_total(p) <= u64::MAX,
    ensures
        ({
            let d = chip_drafts(p);
            &&& d.len() == (if digi_stream(p) {
                4int
            } else {
                3
            })
            &&& d[0].residuals.waveform.0 == waveform_change_total(p)
            &&& d[0].residuals.pulse_width.0 == 0 && d[0].residuals.maximum_pitch.0 == 0
            &&& d[0].recipe == RecipeView::SidOscillator { points: waveform_total(p) as u32 }
            &&& d[1].residuals == StateResiduals::none()
            &&& d[1].losses.contains(KnownLoss::TimingBounded) <==> bounded_onset(
                onsets_of(p.events@),
            )
            &&& d[1].graph == 3 && d[0].graph == 1 && d[2].graph == 1
            &&& d[2].residuals == StateResiduals::none()
            &&& d[0].density == 0 && d[1].density == 0
            &&& p.chip.cutoff_points <= u32::MAX ==> d[2].density == p.chip.cutoff_points
            &&& digi_stream(p) ==> d[3].losses == seq![KnownLoss::RenderedFallback]
                && d[3].recipe is Sampler
            &&& d[1].recipe matches RecipeView::SidSequence { onsets, oscillators, noises, .. }
                && onsets == onsets_of(p.events@) && oscillators == oscillator_starts_of(
                p.continuous@,
            ) && noises == noise_starts_of(p.continuous@)
        }),
{
    let d = chip_drafts(p);
    if bounded_onset(onsets_of(p.events@)) {
        assert(d[1].losses[0] == KnownLoss::TimingBounded);
    }
}

/// A sequence asks of its target just what the tune makes use of.
pub proof fn sequences_ask_for_what_they_use(p: AnalyzedSidProgram, b: BehaviorCapability)
    ensures
        sequence_requirements(p)[0] == RequirementView::Module("sid_oscillator"@),
        sequence_requirements(p).contains(RequirementView::Behavior(b)) <==> match b {
            BehaviorCapability::CycleStampedControl => onsets_of(p.events@).len() > 0,
            BehaviorCapability::SequenceContinuation => continuation_total(p) > 0,
            BehaviorCapability::PhaseReset => oscillator_starts_of(p.continuous@).len() > 0,
            BehaviorCapability::OscillatorStateInitialization => oscillator_starts_of(
                p.continuous@,
            ).len() > 0,
            BehaviorCapability::NoiseStateInitialization => noise_starts_of(p.continuous@).len()
                > 0,
            BehaviorCapability::LiveCrossVoice => cross_voice_total(p) > 0,
            _ => false,
        },
{
    let r = sequence_requirements(p);
    let oscillators = oscillator_starts_of(p.continuous@).len() > 0;
    let a: int = if onsets_of(p.events@).len() > 0 {
        2
    } else {
        1
    };
    let c: int = if continuation_total(p) > 0 {
        a + 1
    } else {
        a
    };
    let o: int = if oscillators {
        c + 2
    } else {
        c
    };
    let n: int = if noise_starts_of(p.continuous@).len() > 0 {
        o + 1
    } else {
        o
    };
    if a == 2 {
        assert(r[1] == RequirementView::Behavior(BehaviorCapability::CycleStampedControl));
    }
    if c > a {
        assert(r[a] == RequirementView::Behavior(BehaviorCapability::SequenceContinuation));
    }
    if o > c {
        assert(r[c] == RequirementView::Behavior(BehaviorCapability::PhaseReset));
        assert(r[c + 1] == RequirementView::Behavior(
            BehaviorCapability::OscillatorStateInitialization,
        ));
    }
    if n > o {
        assert(r[o] == RequirementView::Behavior(BehaviorCapability::NoiseStateInitialization));
    }
    if cross_voice_total(p) > 0 {
        assert(r[n] == RequirementView::Behavior(BehaviorCapability::LiveCrossVoice));
    }
}

/// What is read from a signal drives what that signal stands for, and nothing else.
pub proof fn signals_drive_what_they_stand_for(
    p: AnalyzedSidProgram,
    ids: Seq<SignalInterpretationId>,
    d: StateDomain,
)
    ensures
        interpretation_domains(p, ids).contains(d) <==> exists|i: int|
            0 <= i < p.interpretations@.len() && ids.contains((#[trigger] p.interpretations@[i]).id)
                && match p.interpretations@[i].source {
                InterpretedSignalSource::VoiceFrequency => d is Pitch,
                InterpretedSignalSource::VoicePulseWidth => d is PulseWidth,
                InterpretedSignalSource::ChipCutoff => d is Filter,
                InterpretedSignalSource::MasterVolume => d is Amplitude,
                InterpretedSignalSource::EnvelopeLevel => d is Amplitude,
            },
{
}

/// Domains are listed in their order, each of the set once, and parted by commas.
pub proof fn domains_are_listed_in_order(set: Set<StateDomain>, d: StateDomain)
    ensures
        ({
            let before = listed(set, d.rank());
            let after = listed(set, d.rank() + 1);
            &&& !set.contains(d) ==> after == before
            &&& set.contains(d) && before.len() == 0 ==> after == d.word()
            &&& set.contains(d) && before.len() > 0 ==> after == before + ", "@ + d.word()
        }),
        listed(set, 0).len() == 0,
        0 <= d.rank() < 12,
{
    rank_is_injective(StateDomain::at_rank(d.rank()), d);
}

/// Automation is as dense as what it writes down: one point for each reading of a signal, or
/// one for each change of the chip. Both name the same fallbacks.
pub proof fn automation_is_as_dense_as_its_points(p: AnalyzedSidProgram)
    requires
        p.interpretations@.len() <= u32::MAX,
        primary_total(p) <= u32::MAX,
    ensures
        ({
            let d = automation_drafts(p);
            &&& d.len() == 2
            &&& d[0].density == p.interpretations@.len()
            &&& d[1].density == primary_total(p)
            &&& d[0].graph == 3 && d[1].graph == 6
            &&& d[0].losses == seq![KnownLoss::TimingBounded]
            &&& d[1].losses.contains(KnownLoss::TopologyApproximation)
            &&& d[0].recipe matches RecipeView::Automation { dense, points, fallbacks } && !dense
                && points == d[0].density && fallbacks == program_fallbacks(p)
        }),
        ({
            let d = automation_drafts(p);
            &&& d[1].recipe matches RecipeView::Automation { dense, points, fallbacks } && dense
                && points == d[1].density && fallbacks == program_fallbacks(p)
        }),
{
    assert(automation_drafts(p)[1].losses[2] == KnownLoss::TopologyApproximation);
}

} // verus!
