//! Execution plans: the steps of a pipeline that apply to a branch, and
//! their binding to status records.

use vstd::prelude::*;
use crate::pipeline::{distinct_names, step_views, Step, StepView};
use crate::selector::selects;
use crate::text::chars_of;

verus! {

/// The predicate "this step runs on `branch`".
pub open spec fn applies_to(branch: Seq<char>) -> spec_fn(StepView) -> bool {
    |step: StepView| selects(step.branch_selector, branch)
}

/// The steps that run on `branch`, in the order of the pipeline.
pub open spec fn applicable_steps(steps: Seq<StepView>, branch: Seq<char>) -> Seq<StepView> {
    steps.filter(applies_to(branch))
}

/// The plan of a pipeline for a branch. A pipeline without steps has no
/// plan; any other pipeline has the plan of its applicable steps, which may
/// be empty.
pub open spec fn filtered_plan(steps: Seq<StepView>, branch: Seq<char>) -> Option<Seq<StepView>> {
    if steps.len() == 0 {
        None
    } else {
        Some(applicable_steps(steps, branch))
    }
}

/// Whether a plan, or its absence, leaves nothing to run.
pub open spec fn nothing_to_run(plan: Option<Seq<StepView>>) -> bool {
    match plan {
        None => true,
        Some(steps) => steps.len() == 0,
    }
}

/// What one more step at the end of a pipeline adds to the applicable steps.
pub proof fn lemma_applicable_steps_push(steps: Seq<StepView>, step: StepView, branch: Seq<char>)
    ensures
        applicable_steps(steps.push(step), branch) == if selects(step.branch_selector, branch) {
            applicable_steps(steps, branch).push(step)
        } else {
            applicable_steps(steps, branch)
        },
{
    reveal(Seq::filter);
    assert(steps.push(step).drop_last() =~= steps);
}

/// Every step of the plan is a step of the pipeline and runs on the branch;
/// every step of the pipeline that runs on the branch is in the plan.
pub proof fn lemma_applicable_steps_exact(steps: Seq<StepView>, branch: Seq<char>)
    ensures
        applicable_steps(steps, branch).len() <= steps.len(),
        forall|i: int|
            0 <= i < applicable_steps(steps, branch).len() ==> {
                &&& selects((#[trigger] applicable_steps(steps, branch)[i]).branch_selector, branch)
                &&& steps.contains(applicable_steps(steps, branch)[i])
            },
        forall|i: int|
            0 <= i < steps.len() && selects(steps[i].branch_selector, branch)
                ==> applicable_steps(steps, branch).contains(#[trigger] steps[i]),
{
    let pred = applies_to(branch);
    let plan = steps.filter(pred);
    steps.lemma_filter_len(pred);
    assert forall|i: int| 0 <= i < plan.len() implies selects(
        (#[trigger] plan[i]).branch_selector,
        branch,
    ) && steps.contains(plan[i]) by {
        steps.lemma_filter_pred(pred, i);
        steps.lemma_filter_contains_rev(pred, plan[i]);
    }
    assert forall|i: int|
        0 <= i < steps.len() && selects(steps[i].branch_selector, branch) implies plan.contains(
        #[trigger] steps[i],
    ) by {
        steps.lemma_filter_contains(pred, i);
    }
}

/// Filtering keeps step names distinct.
pub proof fn lemma_applicable_steps_distinct(steps: Seq<StepView>, branch: Seq<char>)
    requires
        distinct_names(steps),
    ensures
        distinct_names(applicable_steps(steps, branch)),
    decreases steps.len(),
{
    reveal(Seq::filter);
    if steps.len() > 0 {
        let front = steps.drop_last();
        let last = steps.last();
        assert(distinct_names(front)) by {
            assert forall|i: int, j: int| 0 <= i < j < front.len() implies (#[trigger] front[i]).name
                != (#[trigger] front[j]).name by {
                assert(front[i] == steps[i] && front[j] == steps[j]);
            }
        }
        lemma_applicable_steps_distinct(front, branch);
        lemma_applicable_steps_exact(front, branch);
        let kept = applicable_steps(front, branch);
        if selects(last.branch_selector, branch) {
            let plan = kept.push(last);
            assert forall|i: int, j: int| 0 <= i < j < plan.len() implies (#[trigger] plan[i]).name
                != (#[trigger] plan[j]).name by {
                if j < kept.len() {
                    assert(plan[i] == kept[i] && plan[j] == kept[j]);
                }
            }
        }
    }
}

/// Selects the steps of a pipeline that run on `branch`, in the order of the
/// pipeline. `None` says that the pipeline defines no step at all; `Some` of
/// an empty plan says that it defines steps, none of them for this branch.
pub fn filter(steps: &Vec<Step>, branch: &str) -> (out: Option<Vec<Step>>)
    ensures
        match out {
            Some(plan) => filtered_plan(step_views(steps@), branch@) == Some(step_views(plan@)),
            None => filtered_plan(step_views(steps@), branch@) is None,
        },
{
    if steps.len() == 0 {
        return None;
    }
    let name = chars_of(branch);
    let ghost all = step_views(steps@);
    let mut plan: Vec<Step> = Vec::new();
    let mut i: usize = 0;
    proof {
        reveal(Seq::filter);
    }
    while i < steps.len()
        invariant
            i <= steps@.len(),
            all == step_views(steps@),
            name@ == branch@,
            step_views(plan@) == applicable_steps(all.take(i as int), branch@),
        decreases steps@.len() - i,
    {
        let step = &steps[i];
        proof {
            assert(all.take(i + 1) =~= all.take(i as int).push(step@));
            lemma_applicable_steps_push(all.take(i as int), step@, branch@);
        }
        if step.branch_selector.matches_chars(&name) {
            let copy = step.clone();
            plan.push(copy);
        }
        i = i + 1;
    }
    assert(all.take(i as int) =~= all);
    Some(plan)
}

/// A planned step together with the status record that was created for it.
#[derive(Debug, PartialEq, Eq)]
pub struct StepBinding {
    pub step: Step,
    pub status_record_id: u64,
}

/// The mathematical value of a [`StepBinding`].
pub struct StepBindingView {
    pub step: StepView,
    pub status_record_id: u64,
}

impl View for StepBinding {
    type V = StepBindingView;

    open spec fn view(&self) -> StepBindingView {
        StepBindingView { step: self.step@, status_record_id: self.status_record_id }
    }
}

impl Clone for StepBinding {
    fn clone(&self) -> (out: Self)
        ensures
            out@ == self@,
    {
        StepBinding { step: self.step.clone(), status_record_id: self.status_record_id }
    }
}

/// The values of a sequence of bindings.
pub open spec fn binding_views(v: Seq<StepBinding>) -> Seq<StepBindingView> {
    Seq::new(v.len(), |i: int| v[i]@)
}

/// The bindings of the first steps of `plan` to `ids`, one for one.
pub open spec fn bind(plan: Seq<StepView>, ids: Seq<u64>) -> Seq<StepBindingView>
    recommends
        ids.len() <= plan.len(),
{
    Seq::new(ids.len(), |i: int| StepBindingView { step: plan[i], status_record_id: ids[i] })
}

} // verus!
