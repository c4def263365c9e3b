//! Two choices for one program agree.

use crate::analysis::program::AnalyzedSidProgram;
use super::candidates::{
    program_drafts, realizes, requirement_views, size_at, RequirementView,
};
use super::{
    cheaper, cost_key, gate_rejection, key_less, met, option_for, passes, rejection_views,
    rejections, right_choice, right_decision, right_gating, right_plan, right_selection,
    state_accepted, unmet, AutomaticSelection, BehaviorCapability, CandidateDecision, CandidateId,
    CandidateRenderEvaluation, PertylizerLoweringPlan, RenderGatedSelection,
    RepresentationCandidate, Selection, SerializedSize, StateBudget, StateDomain,
    TargetCapabilities,
};
use vstd::prelude::*;

verus! {

/// Whether two targets can do the same.
pub open spec fn same_abilities(a: TargetCapabilities, b: TargetCapabilities) -> bool {
    &&& a.revision.0@ == b.revision.0@
    &&& forall|name: Seq<char>| #[trigger] a.has_module(name) == b.has_module(name)
    &&& forall|x: BehaviorCapability| #[trigger] a.has_behavior(x) == b.has_behavior(x)
}

/// Two mirrors of one revision with the same modules can do the same.
pub proof fn mirrors_agree(a: TargetCapabilities, b: TargetCapabilities, modules: Seq<Seq<char>>)
    requires
        a.mirrors(modules),
        b.mirrors(modules),
    ensures
        same_abilities(a, b),
{
    assert forall|name: Seq<char>| #[trigger] a.has_module(name) == b.has_module(name) by {
        named_modules(a, modules, name);
        named_modules(b, modules, name);
    }
}

proof fn named_modules(c: TargetCapabilities, modules: Seq<Seq<char>>, name: Seq<char>)
    requires
        c.mirrors(modules),
    ensures
        c.has_module(name) == modules.contains(name),
{
    assert forall|i: int| 0 <= i < modules.len() implies #[trigger] modules[i]
        == c.modules@[i].0@ by {}
    if c.has_module(name) {
        let i = choose|i: int|
            0 <= i < c.modules@.len() && (#[trigger] c.modules@[i]).0@ == name;
        assert(modules[i] == name);
    }
    if modules.contains(name) {
        let i = choose|i: int| 0 <= i < modules.len() && modules[i] == name;
        assert(c.modules@[i].0@ == name);
    }
}

/// Whether two candidates are the same as plain values.
pub open spec fn same_candidate(a: RepresentationCandidate, b: RepresentationCandidate) -> bool {
    &&& a.id == b.id
    &&& a.class == b.class
    &&& a.coverage@ == b.coverage@
    &&& requirement_views(a.requirements@) == requirement_views(b.requirements@)
    &&& a.known_losses@ == b.known_losses@
    &&& a.cost == b.cost
    &&& a.residuals == b.residuals
    &&& a.render_requirement == b.render_requirement
    &&& a.scope.view() == b.scope.view()
    &&& a.recipe.view() == b.recipe.view()
}

/// Whether two decisions are the same as plain values.
pub open spec fn same_decision(a: CandidateDecision, b: CandidateDecision) -> bool {
    &&& a.candidate == b.candidate
    &&& a.accepted == b.accepted
    &&& rejection_views(a.rejected@) == rejection_views(b.rejected@)
}

/// Whether two selections choose the same for every domain.
pub open spec fn same_choices(a: Selection, b: Selection) -> bool {
    forall|d: StateDomain| #[trigger] a.choice(d) == b.choice(d)
}

/// Whether two plans are the same as plain values.
pub open spec fn same_plan(a: PertylizerLoweringPlan, b: PertylizerLoweringPlan) -> bool {
    &&& a.target.0@ == b.target.0@
    &&& a.required@ == b.required@
    &&& a.candidates@.len() == b.candidates@.len()
    &&& forall|i: int|
        0 <= i < a.candidates@.len() ==> same_candidate(#[trigger] a.candidates@[i], b.candidates@[i])
    &&& a.decisions@.len() == b.decisions@.len()
    &&& forall|i: int|
        0 <= i < a.decisions@.len() ==> same_decision(#[trigger] a.decisions@[i], b.decisions@[i])
    &&& same_choices(a.selected, b.selected)
    &&& a.uncovered@ == b.uncovered@
}

/// Whether two gated selections are the same as plain values.
pub open spec fn same_gating(a: RenderGatedSelection, b: RenderGatedSelection) -> bool {
    &&& a.decisions@ == b.decisions@
    &&& same_choices(a.selected, b.selected)
    &&& a.uncovered@ == b.uncovered@
}

/// Whether two automatic selections are the same as plain values.
pub open spec fn same_selection(a: AutomaticSelection, b: AutomaticSelection) -> bool {
    same_plan(a.state, b.state) && same_gating(a.render, b.render)
}

proof fn ties_are_equal(a: Seq<int>, b: Seq<int>, from: int)
    requires
        0 <= from <= 6,
        !key_less(a, b, from),
        !key_less(b, a, from),
    ensures
        forall|k: int| from <= k < 6 ==> a[k] == b[k],
    decreases 6 - from,
{
    if from < 6 {
        ties_are_equal(a, b, from + 1);
    }
}

proof fn same_lacks(requirements: Seq<RequirementView>, a: TargetCapabilities, b: TargetCapabilities)
    requires
        same_abilities(a, b),
    ensures
        unmet(requirements, a) == unmet(requirements, b),
    decreases requirements.len(),
{
    if requirements.len() > 0 {
        same_lacks(requirements.drop_last(), a, b);
        assert(met(requirements.last(), a) == met(requirements.last(), b));
    }
}

proof fn same_right_choice(
    xs: Seq<RepresentationCandidate>,
    ys: Seq<RepresentationCandidate>,
    f: spec_fn(int) -> bool,
    g: spec_fn(int) -> bool,
    d: StateDomain,
    x: Option<CandidateId>,
    y: Option<CandidateId>,
)
    requires
        xs.len() == ys.len(),
        forall|i: int| 0 <= i < xs.len() ==> same_candidate(#[trigger] xs[i], ys[i]),
        forall|i: int| 0 <= i < xs.len() ==> #[trigger] f(i) == g(i),
        right_choice(xs, f, d, x),
        right_choice(ys, g, d, y),
    ensures
        x == y,
{
    assert forall|i: int| #[trigger] option_for(xs, f, d, i) == option_for(ys, g, d, i) by {
        if 0 <= i < xs.len() {
            assert(f(i) == g(i));
            assert(same_candidate(xs[i], ys[i]));
        }
    }
    match (x, y) {
        (Some(p), Some(q)) => {
            let i = choose|i: int| #[trigger]
                option_for(xs, f, d, i) && xs[i].id == p && forall|j: int| #[trigger]
                    option_for(xs, f, d, j) ==> !cheaper(xs[j], xs[i]);
            let j = choose|j: int| #[trigger]
                option_for(ys, g, d, j) && ys[j].id == q && forall|k: int| #[trigger]
                    option_for(ys, g, d, k) ==> !cheaper(ys[k], ys[j]);
            assert(option_for(ys, g, d, i));
            assert(option_for(xs, f, d, j));
            assert(same_candidate(xs[i], ys[i]) && same_candidate(xs[j], ys[j]));
            assert(cost_key(xs[i]) == cost_key(ys[i]));
            assert(cost_key(xs[j]) == cost_key(ys[j]));
            ties_are_equal(cost_key(xs[i]), cost_key(xs[j]), 0);
            assert(cost_key(xs[i])[5] == cost_key(xs[j])[5]);
        },
        (Some(p), None) => {
            let i = choose|i: int| #[trigger] option_for(xs, f, d, i) && xs[i].id == p;
            assert(!option_for(ys, g, d, i));
        },
        (None, Some(q)) => {
            let j = choose|j: int| #[trigger] option_for(ys, g, d, j) && ys[j].id == q;
            assert(!option_for(xs, f, d, j));
        },
        (None, None) => {},
    }
}

proof fn same_right_selection(
    xs: Seq<RepresentationCandidate>,
    ys: Seq<RepresentationCandidate>,
    f: spec_fn(int) -> bool,
    g: spec_fn(int) -> bool,
    required: Set<StateDomain>,
    x: Selection,
    y: Selection,
    left: Set<StateDomain>,
    right: Set<StateDomain>,
)
    requires
        xs.len() == ys.len(),
        forall|i: int| 0 <= i < xs.len() ==> same_candidate(#[trigger] xs[i], ys[i]),
        forall|i: int| 0 <= i < xs.len() ==> #[trigger] f(i) == g(i),
        right_selection(xs, f, required, x, left),
        right_selection(ys, g, required, y, right),
    ensures
        same_choices(x, y),
        left == right,
{
    assert forall|d: StateDomain| #[trigger] x.choice(d) == y.choice(d) by {
        if required.contains(d) {
            assert(right_choice(xs, f, d, x.choice(d)));
            assert(right_choice(ys, g, d, y.choice(d)));
            same_right_choice(xs, ys, f, g, d, x.choice(d), y.choice(d));
        } else {
            assert(x.choice(d) is None && y.choice(d) is None);
        }
    }
    assert forall|d: StateDomain| #[trigger] left.contains(d) == right.contains(d) by {
        assert(x.choice(d) == y.choice(d));
    }
    assert(left =~= right);
}

proof fn same_acceptance(xs: Seq<CandidateDecision>, ys: Seq<CandidateDecision>, id: CandidateId)
    requires
        xs.len() == ys.len(),
        forall|i: int| 0 <= i < xs.len() ==> same_decision(#[trigger] xs[i], ys[i]),
    ensures
        state_accepted(xs, id) == state_accepted(ys, id),
    decreases xs.len(),
{
    if xs.len() > 0 {
        assert(same_decision(xs[xs.len() - 1], ys[xs.len() - 1]));
        assert forall|i: int| 0 <= i < xs.drop_last().len() implies same_decision(
            #[trigger] xs.drop_last()[i],
            ys.drop_last()[i],
        ) by {
            assert(same_decision(xs[i], ys[i]));
        }
        same_acceptance(xs.drop_last(), ys.drop_last(), id);
    }
}

proof fn plans_agree(
    a: PertylizerLoweringPlan,
    b: PertylizerLoweringPlan,
    program: AnalyzedSidProgram,
    here: TargetCapabilities,
    there: TargetCapabilities,
    budget: StateBudget,
    sizes: Seq<SerializedSize>,
)
    requires
        same_abilities(here, there),
        right_plan(a, program, here, budget, sizes),
        right_plan(b, program, there, budget, sizes),
    ensures
        same_plan(a, b),
{
    let xs = a.candidates@;
    let ys = b.candidates@;
    assert forall|i: int| 0 <= i < xs.len() implies same_candidate(#[trigger] xs[i], ys[i]) by {
        assert(realizes(xs[i], program_drafts(program)[i], program, i, size_at(sizes, i)));
        assert(realizes(ys[i], program_drafts(program)[i], program, i, size_at(sizes, i)));
    }
    assert forall|i: int| 0 <= i < xs.len() implies same_decision(
        #[trigger] a.decisions@[i],
        b.decisions@[i],
    ) by {
        assert(right_decision(xs[i], here, budget, a.decisions@[i]));
        assert(right_decision(ys[i], there, budget, b.decisions@[i]));
        assert(same_candidate(xs[i], ys[i]));
        same_lacks(requirement_views(xs[i].requirements@), here, there);
        assert(rejections(xs[i], here, budget) == rejections(ys[i], there, budget));
    }
    let f = |i: int| a.decisions@[i].accepted;
    let g = |i: int| b.decisions@[i].accepted;
    assert forall|i: int| 0 <= i < xs.len() implies #[trigger] f(i) == g(i) by {
        assert(same_decision(a.decisions@[i], b.decisions@[i]));
    }
    same_right_selection(
        xs,
        ys,
        f,
        g,
        a.required@,
        a.selected,
        b.selected,
        a.uncovered@,
        b.uncovered@,
    );
}

/// What is chosen for a program depends on what the target can do, on the budget, on
/// the sizes of the representations and on how they were rendered, and on nothing else.
pub proof fn choices_are_determined(
    a: AutomaticSelection,
    b: AutomaticSelection,
    program: AnalyzedSidProgram,
    here: TargetCapabilities,
    there: TargetCapabilities,
    budget: StateBudget,
    sizes: Seq<SerializedSize>,
    evaluations: Seq<CandidateRenderEvaluation>,
)
    requires
        same_abilities(here, there),
        right_plan(a.state, program, here, budget, sizes),
        right_gating(a.render, a.state, evaluations),
        right_plan(b.state, program, there, budget, sizes),
        right_gating(b.render, b.state, evaluations),
    ensures
        same_selection(a, b),
{
    plans_agree(a.state, b.state, program, here, there, budget, sizes);
    let xs = a.state.candidates@;
    let ys = b.state.candidates@;
    assert forall|i: int| 0 <= i < xs.len() implies #[trigger] a.render.decisions@[i]
        == b.render.decisions@[i] by {
        assert(same_candidate(xs[i], ys[i]));
        same_acceptance(a.state.decisions@, b.state.decisions@, xs[i].id);
        assert(gate_rejection(xs[i], a.state.decisions@, evaluations) == gate_rejection(
            ys[i],
            b.state.decisions@,
            evaluations,
        ));
        assert(b.render.decisions@[i].candidate == ys[i].id);
    }
    assert(a.render.decisions@ =~= b.render.decisions@);
    let f = |i: int| passes(a.render.decisions@, xs[i].id);
    let g = |i: int| passes(b.render.decisions@, ys[i].id);
    assert forall|i: int| 0 <= i < xs.len() implies #[trigger] f(i) == g(i) by {
        assert(same_candidate(xs[i], ys[i]));
    }
    same_right_selection(
        xs,
        ys,
        f,
        g,
        a.state.required@,
        a.render.selected,
        b.render.selected,
        a.render.uncovered@,
        b.render.uncovered@,
    );
}

} // verus!
