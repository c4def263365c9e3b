//! What the choice of a representation guarantees.

use crate::analysis::program::AnalyzedSidProgram;
use super::candidates::{
    program_drafts, realizes, requirement_views, size_at, RequirementView,
};
use super::{
    cheaper, cost_key, gate_rejection, key_less, met, option_for, passes, rejections, render_result,
    right_choice, right_decision, right_gating, right_plan, right_selection, unmet, CandidateId,
    CandidateRenderEvaluation, EditCost, EditabilityClass,
    KnownLoss, PertylizerLoweringPlan, RejectionView, RenderGatedSelection, RenderRequirement,
    RepresentationCandidate, Requirement, Selection, SerializedSize, StateBudget, StateDomain,
    TargetCapabilities,
};
use vstd::prelude::*;

verus! {

/// Whether a loss is no worse than another one: nothing is better than none, then come
/// late events, wrong states, wrong connections, and what only a recording can play.
pub open spec fn loses_no_more(a: KnownLoss, b: KnownLoss) -> bool {
    match b {
        KnownLoss::Exact => a is Exact,
        KnownLoss::TimingBounded => a is Exact || a is TimingBounded,
        KnownLoss::StateApproximation => !(a is TopologyApproximation) && !(a is RenderedFallback),
        KnownLoss::TopologyApproximation => !(a is RenderedFallback),
        KnownLoss::RenderedFallback => true,
    }
}

/// Whether something can be edited no worse than something else: a module of the target
/// best, a recording worst.
pub open spec fn edits_no_worse(a: EditabilityClass, b: EditabilityClass) -> bool {
    match b {
        EditabilityClass::Native => a is Native,
        EditabilityClass::Structured => a is Native || a is Structured,
        EditabilityClass::Scripted => a is Native || a is Structured || a is Scripted,
        EditabilityClass::SparseAutomation => !(a is DenseAutomation) && !(a is Rendered),
        EditabilityClass::DenseAutomation => !(a is Rendered),
        EditabilityClass::Rendered => true,
    }
}

/// Whether a cost is no higher than another one. The loss weighs most, then how well it
/// can be edited, then modules, then points of automation, then bytes.
pub open spec fn costs_no_more(a: EditCost, b: EditCost) -> bool {
    &&& loses_no_more(a.known_loss, b.known_loss)
    &&& a.known_loss == b.known_loss ==> edits_no_worse(a.editability, b.editability)
    &&& a.known_loss == b.known_loss && a.editability == b.editability ==> a.graph_complexity.0
        <= b.graph_complexity.0
    &&& a.known_loss == b.known_loss && a.editability == b.editability && a.graph_complexity
        == b.graph_complexity ==> a.automation_density.0 <= b.automation_density.0
    &&& a.known_loss == b.known_loss && a.editability == b.editability && a.graph_complexity
        == b.graph_complexity && a.automation_density == b.automation_density
        ==> a.serialized_size.0 <= b.serialized_size.0
}

proof fn not_cheaper_costs_no_less(a: RepresentationCandidate, b: RepresentationCandidate)
    requires
        !cheaper(b, a),
    ensures
        costs_no_more(a.cost, b.cost),
        a.cost == b.cost ==> a.id.0 <= b.id.0,
{
    reveal_with_fuel(key_less, 7);
    let x = cost_key(a);
    let y = cost_key(b);
    assert(x.len() == 6 && y.len() == 6);
    assert(x[0] <= y[0]);
    assert(loses_no_more(a.cost.known_loss, b.cost.known_loss));
    if x[0] == y[0] {
        assert(x[1] <= y[1]);
        assert(edits_no_worse(a.cost.editability, b.cost.editability));
    }
    assert(a.cost.known_loss == b.cost.known_loss ==> x[0] == y[0]);
    assert(a.cost.editability == b.cost.editability ==> x[1] == y[1]);
}

/// Of all accepted candidates that cover a needed domain, the one that is chosen costs
/// least: none loses less, of those that lose as much none can be edited better, and so
/// on down to the first of equals. The chosen candidate is accepted itself and covers
/// the domain.
pub proof fn the_least_costly_candidate_is_chosen(
    plan: PertylizerLoweringPlan,
    program: AnalyzedSidProgram,
    capabilities: TargetCapabilities,
    budget: StateBudget,
    sizes: Seq<SerializedSize>,
    d: StateDomain,
    i: int,
) -> (s: int)
    requires
        right_plan(plan, program, capabilities, budget, sizes),
        plan.required@.contains(d),
        0 <= i < plan.candidates@.len(),
        plan.decisions@[i].accepted,
        plan.candidates@[i].coverage@.contains(d),
    ensures
        0 <= s < plan.candidates@.len(),
        plan.selected.choice(d) == Some(plan.candidates@[s].id),
        plan.decisions@[s].accepted,
        plan.candidates@[s].coverage@.contains(d),
        costs_no_more(plan.candidates@[s].cost, plan.candidates@[i].cost),
        plan.candidates@[s].cost == plan.candidates@[i].cost ==> s <= i,
{
    let ok = |i: int| plan.decisions@[i].accepted;
    let s = cheapest_option(
        plan.candidates@,
        ok,
        plan.required@,
        plan.selected,
        plan.uncovered@,
        d,
        i,
    );
    let drafts = program_drafts(program);
    assert(realizes(plan.candidates@[s], drafts[s], program, s, size_at(sizes, s)));
    assert(realizes(plan.candidates@[i], drafts[i], program, i, size_at(sizes, i)));
    s
}

proof fn cheapest_option(
    cs: Seq<RepresentationCandidate>,
    ok: spec_fn(int) -> bool,
    required: Set<StateDomain>,
    selected: Selection,
    uncovered: Set<StateDomain>,
    d: StateDomain,
    i: int,
) -> (s: int)
    requires
        right_selection(cs, ok, required, selected, uncovered),
        required.contains(d),
        0 <= i < cs.len(),
        ok(i),
        cs[i].coverage@.contains(d),
    ensures
        0 <= s < cs.len(),
        ok(s),
        selected.choice(d) == Some(cs[s].id),
        cs[s].coverage@.contains(d),
        costs_no_more(cs[s].cost, cs[i].cost),
        cs[s].cost == cs[i].cost ==> cs[s].id.0 <= cs[i].id.0,
{
    assert(option_for(cs, ok, d, i));
    assert(right_choice(cs, ok, d, selected.choice(d)));
    let id = selected.choice(d)->0;
    let s = choose|s: int| #[trigger]
        option_for(cs, ok, d, s) && cs[s].id == id && forall|j: int| #[trigger]
            option_for(cs, ok, d, j) ==> !cheaper(cs[j], cs[s]);
    not_cheaper_costs_no_less(cs[s], cs[i]);
    s
}

/// Behind the render gate the choice is as economical: of all candidates that got
/// through and cover a needed domain, the chosen one costs least.
pub proof fn the_least_costly_rendering_is_chosen(
    r: RenderGatedSelection,
    plan: PertylizerLoweringPlan,
    program: AnalyzedSidProgram,
    capabilities: TargetCapabilities,
    budget: StateBudget,
    sizes: Seq<SerializedSize>,
    evaluations: Seq<CandidateRenderEvaluation>,
    d: StateDomain,
    i: int,
) -> (s: int)
    requires
        right_plan(plan, program, capabilities, budget, sizes),
        right_gating(r, plan, evaluations),
        plan.required@.contains(d),
        0 <= i < plan.candidates@.len(),
        r.decisions@[i].accepted,
        plan.candidates@[i].coverage@.contains(d),
    ensures
        0 <= s < plan.candidates@.len(),
        r.selected.choice(d) == Some(plan.candidates@[s].id),
        r.decisions@[s].accepted,
        plan.candidates@[s].coverage@.contains(d),
        costs_no_more(plan.candidates@[s].cost, plan.candidates@[i].cost),
{
    let cs = plan.candidates@;
    let ok = |i: int| passes(r.decisions@, cs[i].id);
    assert(r.decisions@[i].candidate == cs[i].id);
    assert(ok(i));
    let s = cheapest_option(cs, ok, plan.required@, r.selected, r.uncovered@, d, i);
    let k = choose|k: int|
        0 <= k < r.decisions@.len() && (#[trigger] r.decisions@[k]).accepted
            && r.decisions@[k].candidate == cs[s].id;
    let drafts = program_drafts(program);
    assert(realizes(cs[s], drafts[s], program, s, size_at(sizes, s)));
    assert(realizes(cs[k], drafts[k], program, k, size_at(sizes, k)));
    assert(r.decisions@[k].candidate == cs[k].id);
    assert(k == s);
    s
}

proof fn unmet_is_what_is_missing(requirements: Seq<RequirementView>, c: TargetCapabilities)
    ensures
        unmet(requirements, c).len() == 0 <==> forall|j: int|
            0 <= j < requirements.len() ==> met(#[trigger] requirements[j], c),
        forall|j: int|
            0 <= j < unmet(requirements, c).len() ==> exists|k: int|
                0 <= k < requirements.len() && !met(#[trigger] requirements[k], c) && (
                #[trigger] unmet(requirements, c)[j]) == RejectionView::MissingRequirement(
                    requirements[k],
                ),
    decreases requirements.len(),
{
    if requirements.len() > 0 {
        let t = requirements.drop_last();
        unmet_is_what_is_missing(t, c);
        let n = requirements.len() - 1;
        assert forall|j: int| 0 <= j < n implies t[j] == #[trigger] requirements[j] by {}
        assert forall|j: int| 0 <= j < unmet(requirements, c).len() implies exists|k: int|
            0 <= k < requirements.len() && !met(#[trigger] requirements[k], c) && (
            #[trigger] unmet(requirements, c)[j]) == RejectionView::MissingRequirement(
                requirements[k],
            ) by {
            if j < unmet(t, c).len() {
                let k = choose|k: int|
                    0 <= k < t.len() && !met(#[trigger] t[k], c) && unmet(t, c)[j]
                        == RejectionView::MissingRequirement(t[k]);
                assert(requirements[k] == t[k]);
            } else {
                assert(requirements[n] == requirements.last());
            }
        }
        if unmet(requirements, c).len() == 0 {
            assert forall|j: int| 0 <= j < requirements.len() implies met(
                #[trigger] requirements[j],
                c,
            ) by {
                if j < n {
                    assert(met(t[j], c));
                }
            }
        }
        if forall|j: int| 0 <= j < requirements.len() ==> met(#[trigger] requirements[j], c) {
            assert forall|j: int| 0 <= j < t.len() implies met(#[trigger] t[j], c) by {
                assert(met(requirements[j], c));
            }
            assert(met(requirements[n], c));
        }
    }
}

/// A candidate is accepted exactly where the target has every module and every behaviour
/// that it needs, and none of its residuals is above the budget. The baseline may exceed
/// the budget.
pub proof fn candidates_need_a_capable_target(
    plan: PertylizerLoweringPlan,
    program: AnalyzedSidProgram,
    capabilities: TargetCapabilities,
    budget: StateBudget,
    sizes: Seq<SerializedSize>,
    i: int,
)
    requires
        right_plan(plan, program, capabilities, budget, sizes),
        0 <= i < plan.candidates@.len(),
    ensures
        ({
            let c = plan.candidates@[i];
            let r = c.residuals;
            plan.decisions@[i].accepted <==> {
                &&& forall|j: int|
                    0 <= j < c.requirements@.len() ==> match #[trigger] c.requirements@[j] {
                        Requirement::Module(m) => exists|k: int|
                            0 <= k < capabilities.modules@.len() && (
                            #[trigger] capabilities.modules@[k]).0@ == m.0@,
                        Requirement::Behavior(b) => capabilities.verified_behaviors@.contains(b),
                    }
                &&& c.render_requirement == RenderRequirement::PinnedBaseline || {
                    &&& r.onset_program.0 <= budget.onset_program.0
                    &&& r.maximum_pitch.0 <= budget.maximum_pitch.0
                    &&& r.maximum_level.0 <= budget.maximum_level.0
                    &&& r.gate_retrigger.0 <= budget.gate_retrigger.0
                    &&& r.waveform.0 <= budget.waveform.0
                    &&& r.pulse_width.0 <= budget.pulse_width.0
                    &&& r.oscillator_continuation.0 <= budget.oscillator_continuation.0
                    &&& r.noise_continuation.0 <= budget.noise_continuation.0
                    &&& r.filter.0 <= budget.filter.0
                    &&& r.routing.0 <= budget.routing.0
                    &&& r.cross_voice.0 <= budget.cross_voice.0
                    &&& r.digi.0 <= budget.digi.0
                }
            }
        }),
{
    let c = plan.candidates@[i];
    assert(right_decision(c, capabilities, budget, plan.decisions@[i]));
    let views = requirement_views(c.requirements@);
    unmet_is_what_is_missing(views, capabilities);
    assert forall|j: int| 0 <= j < c.requirements@.len() implies views[j]
        == (#[trigger] c.requirements@[j]).view() by {}
    let lacks = unmet(views, capabilities);
    assert(rejections(c, capabilities, budget).len() == 0 <==> lacks.len() == 0 && (
    c.render_requirement == RenderRequirement::PinnedBaseline || c.residuals.fits(budget)));
    if forall|j: int|
        0 <= j < c.requirements@.len() ==> match #[trigger] c.requirements@[j] {
            Requirement::Module(m) => exists|k: int|
                0 <= k < capabilities.modules@.len() && (#[trigger] capabilities.modules@[k]).0@
                    == m.0@,
            Requirement::Behavior(b) => capabilities.verified_behaviors@.contains(b),
        } {
        assert forall|j: int| 0 <= j < views.len() implies met(#[trigger] views[j], capabilities) by {
            assert(views[j] == c.requirements@[j].view());
        }
    }
    if lacks.len() == 0 {
        assert forall|j: int| 0 <= j < c.requirements@.len() implies match
            #[trigger] c.requirements@[j] {
            Requirement::Module(m) => exists|k: int|
                0 <= k < capabilities.modules@.len() && (#[trigger] capabilities.modules@[k]).0@
                    == m.0@,
            Requirement::Behavior(b) => capabilities.verified_behaviors@.contains(b),
        } by {
            assert(met(views[j], capabilities));
        }
    }
}

proof fn last_result(evaluations: Seq<CandidateRenderEvaluation>, id: CandidateId, k: int)
    requires
        0 <= k < evaluations.len(),
        evaluations[k].candidate == id,
        forall|j: int| k < j < evaluations.len() ==> (#[trigger] evaluations[j]).candidate != id,
    ensures
        render_result(evaluations, id) == Some(evaluations[k].within_audio_budget),
    decreases evaluations.len(),
{
    if k < evaluations.len() - 1 {
        assert(evaluations[evaluations.len() - 1].candidate != id);
        let t = evaluations.drop_last();
        assert forall|j: int| k < j < t.len() implies (#[trigger] t[j]).candidate != id by {
            assert(evaluations[j].candidate != id);
        }
        last_result(t, id, k);
    }
}

proof fn no_result(evaluations: Seq<CandidateRenderEvaluation>, id: CandidateId)
    requires
        forall|j: int| 0 <= j < evaluations.len() ==> (#[trigger] evaluations[j]).candidate != id,
    ensures
        render_result(evaluations, id) is None,
    decreases evaluations.len(),
{
    if evaluations.len() > 0 {
        assert(evaluations[evaluations.len() - 1].candidate != id);
        let t = evaluations.drop_last();
        assert forall|j: int| 0 <= j < t.len() implies (#[trigger] t[j]).candidate != id by {
            assert(evaluations[j].candidate != id);
        }
        no_result(t, id);
    }
}

/// A candidate gets through the render gate exactly where its state was accepted and its
/// last rendering was close enough; only the baseline gets through unrendered.
pub proof fn renderings_decide(
    r: RenderGatedSelection,
    plan: PertylizerLoweringPlan,
    program: AnalyzedSidProgram,
    capabilities: TargetCapabilities,
    budget: StateBudget,
    sizes: Seq<SerializedSize>,
    evaluations: Seq<CandidateRenderEvaluation>,
    i: int,
)
    requires
        right_plan(plan, program, capabilities, budget, sizes),
        right_gating(r, plan, evaluations),
        0 <= i < plan.candidates@.len(),
    ensures
        ({
            let c = plan.candidates@[i];
            let accepted = r.decisions@[i].accepted;
            &&& accepted ==> plan.decisions@[i].accepted
            &&& forall|k: int|
                0 <= k < evaluations.len() && (#[trigger] evaluations[k]).candidate == c.id && (
                forall|j: int|
                    k < j < evaluations.len() ==> (#[trigger] evaluations[j]).candidate != c.id)
                    ==> accepted == (plan.decisions@[i].accepted
                    && evaluations[k].within_audio_budget)
            &&& (forall|j: int|
                0 <= j < evaluations.len() ==> (#[trigger] evaluations[j]).candidate != c.id)
                ==> accepted == (plan.decisions@[i].accepted && c.render_requirement
                == RenderRequirement::PinnedBaseline)
        }),
{
    let cs = plan.candidates@;
    let drafts = program_drafts(program);
    let c = cs[i];
    assert forall|j: int| 0 <= j < plan.decisions@.len() implies (
    #[trigger] plan.decisions@[j]).candidate.0 == j by {
        assert(right_decision(cs[j], capabilities, budget, plan.decisions@[j]));
        assert(realizes(cs[j], drafts[j], program, j, size_at(sizes, j)));
    }
    assert(plan.decisions@.take(plan.decisions@.len() as int) =~= plan.decisions@);
    super::accepted_by_place(plan.decisions@, plan.decisions@.len() as int, i);
    assert(realizes(c, drafts[i], program, i, size_at(sizes, i)));
    assert(r.decisions@[i].accepted == (gate_rejection(c, plan.decisions@, evaluations) is None));
    assert forall|k: int|
        0 <= k < evaluations.len() && (#[trigger] evaluations[k]).candidate == c.id && (forall|
            j: int,
        |
            k < j < evaluations.len() ==> (#[trigger] evaluations[j]).candidate != c.id)
            implies r.decisions@[i].accepted == (plan.decisions@[i].accepted
        && evaluations[k].within_audio_budget) by {
        last_result(evaluations, c.id, k);
    }
    if forall|j: int|
        0 <= j < evaluations.len() ==> (#[trigger] evaluations[j]).candidate != c.id {
        no_result(evaluations, c.id);
    }
}

} // verus!
