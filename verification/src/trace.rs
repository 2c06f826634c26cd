//! Runs as sequences of events: what holds of a run whatever the outside
//! world answers.
//!
//! [`run_after`] is the run after a sequence of events, [`action_at`] the
//! action with which it answers one of them. The statements below are about
//! every sequence of events, not only about those that a well-behaved caller
//! sends.

use vstd::prelude::*;
use crate::pipeline::{compile_spec, distinct_names, lemma_compile_distinct, step_names, StepView};
use crate::plan::{
    applicable_steps,
    bind,
    filtered_plan,
    lemma_applicable_steps_distinct,
    nothing_to_run,
    StepBindingView,
};
use crate::run::{
    start_spec,
    transition,
    CheckSuiteEventView,
    PhaseView,
    RunActionView,
    RunErrorView,
    RunEventView,
    RunOutcomeView,
    RunView,
    CONFLICT,
};
use crate::workload::{unit_names, workload_name_spec, workload_spec};

verus! {

/// The run after a sequence of events.
pub open spec fn run_after(run: RunView, events: Seq<RunEventView>) -> RunView
    decreases events.len(),
{
    if events.len() == 0 {
        run
    } else {
        transition(run_after(run, events.drop_last()), events.last()).0
    }
}

/// The action with which the run answers the event `events[i]`, after the
/// events before it.
pub open spec fn action_at(run: RunView, events: Seq<RunEventView>, i: int) -> RunActionView
    recommends
        0 <= i < events.len(),
{
    transition(run_after(run, events.take(i)), events[i]).1
}

/// Whether an action makes something outside: a status record or a
/// workload.
pub open spec fn makes_something(action: RunActionView) -> bool {
    action is CreateStatusRecord || action is SubmitWorkload
}

/// The identifiers that a sequence of `StatusRecordCreated` events reports.
pub open spec fn created_ids(events: Seq<RunEventView>) -> Seq<u64> {
    Seq::new(events.len(), |i: int| events[i]->id)
}

/// An event leaves a well-formed run well formed, for the same trigger and
/// namespace.
pub proof fn lemma_transition_keeps(run: RunView, event: RunEventView)
    ensures
        transition(run, event).0.trigger == run.trigger,
        transition(run, event).0.namespace == run.namespace,
        run.wf() ==> transition(run, event).0.wf(),
{
    if run.wf() {
        match run.phase {
            PhaseView::AwaitingStatusRecord { plan, bindings } => {
                match event {
                    RunEventView::StatusRecordCreated { id } => {
                        let bound = bindings.push(
                            StepBindingView {
                                step: plan[bindings.len() as int],
                                status_record_id: id,
                            },
                        );
                        assert forall|i: int| 0 <= i < bound.len() implies (#[trigger] bound[i]).step
                            == plan[i] by {
                            if i < bindings.len() {
                                assert(bound[i] == bindings[i]);
                            }
                        }
                    },
                    _ => {},
                }
            },
            _ => {},
        }
    }
}

/// Events leave a well-formed run well formed, for the same trigger and
/// namespace.
pub proof fn lemma_run_after_keeps(run: RunView, events: Seq<RunEventView>)
    ensures
        run_after(run, events).trigger == run.trigger,
        run_after(run, events).namespace == run.namespace,
        run.wf() ==> run_after(run, events).wf(),
    decreases events.len(),
{
    if events.len() > 0 {
        lemma_run_after_keeps(run, events.drop_last());
        lemma_transition_keeps(run_after(run, events.drop_last()), events.last());
    }
}

/// A run that is over stays over.
pub proof fn lemma_finished_stays(run: RunView, events: Seq<RunEventView>)
    requires
        run.phase is Finished,
    ensures
        run_after(run, events).phase is Finished,
    decreases events.len(),
{
    if events.len() > 0 {
        lemma_finished_stays(run, events.drop_last());
    }
}

/// Once a run is over, whatever comes is answered with `Finish`: nothing
/// more is made.
pub proof fn lemma_over_is_over(run: RunView, events: Seq<RunEventView>, k: int, j: int)
    requires
        0 <= k <= j < events.len(),
        run_after(run, events.take(k)).phase is Finished,
    ensures
        run_after(run, events.take(j)).phase is Finished,
        action_at(run, events, j) is Finish,
    decreases j - k,
{
    if k < j {
        lemma_over_is_over(run, events, k, j - 1);
        assert(events.take(j).drop_last() =~= events.take(j - 1));
    }
}

/// Every event ends the run or leaves it waiting for an answer: the run is
/// over exactly where the action is `Finish`.
pub proof fn lemma_finish_ends(run: RunView, event: RunEventView)
    ensures
        transition(run, event).1 is Finish <==> transition(run, event).0.phase is Finished,
        !(transition(run, event).1 is FetchPipeline),
{
}

/// All or nothing: an event that says that a status record could not be
/// created ends the run. Neither it nor any later event is answered with a
/// request for a status record or with a workload.
pub proof fn lemma_rejected_record_ends_run(run: RunView, events: Seq<RunEventView>, k: int)
    requires
        0 <= k < events.len(),
        events[k] is StatusRecordRejected,
    ensures
        forall|j: int| k <= j < events.len() ==> #[trigger] action_at(run, events, j) is Finish,
        forall|j: int| k <= j < events.len() ==> !makes_something(#[trigger] action_at(run, events, j)),
{
    assert forall|j: int| k <= j < events.len() implies #[trigger] action_at(run, events, j) is Finish by {
        if j > k {
            lemma_over_is_over(run, events, k + 1, j);
        }
    }
}

/// Whether an event reports that a call failed.
pub open spec fn reports_failure(event: RunEventView) -> bool {
    event is ConfigurationMissing || event is AuthenticationRejected || event is PipelineFetchFailed
        || event is StatusRecordRejected || event is WorkloadRejected
}

/// Nothing is tried again: an event that reports a failed call ends the
/// run in whatever state it is, and every later event is answered with
/// `Finish`.
pub proof fn lemma_failure_ends_run(run: RunView, events: Seq<RunEventView>, k: int)
    requires
        0 <= k < events.len(),
        reports_failure(events[k]),
    ensures
        forall|j: int| k <= j < events.len() ==> #[trigger] action_at(run, events, j) is Finish,
{
    assert forall|j: int| k <= j < events.len() implies #[trigger] action_at(run, events, j) is Finish by {
        if j > k {
            lemma_over_is_over(run, events, k + 1, j);
        }
    }
}

/// A conflict on the name of the workload is answered as a dispatch that
/// went well, not as a failure.
pub proof fn lemma_conflict_is_success(run: RunView, cause: Seq<char>)
    requires
        run.phase is AwaitingDispatch,
    ensures
        transition(run, RunEventView::WorkloadRejected { code: Some(CONFLICT), cause }).1
            == (RunActionView::Finish { outcome: RunOutcomeView::AlreadyDispatched }),
{
}

/// The failure that a rejected status record ends the run with names the
/// step whose record it was: the first step of the plan without a binding.
pub proof fn lemma_rejected_record_names_step(
    run: RunView,
    plan: Seq<StepView>,
    bindings: Seq<StepBindingView>,
    cause: Seq<char>,
)
    requires
        run.phase == (PhaseView::AwaitingStatusRecord { plan, bindings }),
    ensures
        transition(run, RunEventView::StatusRecordRejected { cause }).1 == (RunActionView::Finish {
            outcome: RunOutcomeView::Failed {
                error: RunErrorView::StatusRecordCreationFailed {
                    step_name: plan[bindings.len() as int].name,
                    cause,
                },
            },
        }),
{
}

/// Whether the answer to the request for the pipeline leaves nothing to run:
/// the commit has no pipeline, or its pipeline has no step for the branch.
pub open spec fn leaves_nothing_to_run(trigger: CheckSuiteEventView, event: RunEventView) -> bool {
    match event {
        RunEventView::PipelineAbsent => true,
        RunEventView::PipelineFetched { document } => match compile_spec(
            document,
            trigger.head_commit,
        ) {
            Ok(steps) => nothing_to_run(filtered_plan(steps, trigger.head_branch)),
            Err(_) => false,
        },
        _ => false,
    }
}

/// Where the pipeline is absent or has no step for the branch, the run ends
/// as one without work, and no status record and no workload is ever asked
/// for, whatever events follow.
pub proof fn lemma_nothing_to_run_makes_nothing(
    trigger: CheckSuiteEventView,
    namespace: Seq<char>,
    events: Seq<RunEventView>,
)
    requires
        events.len() > 0,
        leaves_nothing_to_run(trigger, events[0]),
    ensures
        !makes_something(start_spec(trigger, namespace).1),
        forall|j: int|
            0 <= j < events.len() ==> !makes_something(
                #[trigger] action_at(start_spec(trigger, namespace).0, events, j),
            ),
        trigger.action == "requested"@ ==> action_at(start_spec(trigger, namespace).0, events, 0)
            is Finish && action_at(start_spec(trigger, namespace).0, events, 0)->outcome is NoWork,
{
    let start = start_spec(trigger, namespace).0;
    assert(events.take(1).drop_last() =~= events.take(0));
    assert forall|j: int| 0 <= j < events.len() implies !makes_something(
        #[trigger] action_at(start, events, j),
    ) by {
        if j > 0 {
            lemma_over_is_over(start, events, 1, j);
        }
    }
}

/// An event that is not `requested` sets off nothing: no pipeline is
/// fetched, and no status record and no workload is ever asked for.
pub proof fn lemma_other_events_set_off_nothing(
    trigger: CheckSuiteEventView,
    namespace: Seq<char>,
    events: Seq<RunEventView>,
)
    requires
        trigger.action != "requested"@,
    ensures
        start_spec(trigger, namespace).1 is Finish,
        forall|j: int|
            0 <= j < events.len() ==> #[trigger] action_at(
                start_spec(trigger, namespace).0,
                events,
                j,
            ) is Finish,
{
    let start = start_spec(trigger, namespace).0;
    assert forall|j: int| 0 <= j < events.len() implies #[trigger] action_at(start, events, j) is Finish by {
        lemma_finished_stays(start, events.take(j));
    }
}

/// No event leads back to the wait for the pipeline: a run that waits for it
/// has seen no event yet.
pub proof fn lemma_awaiting_pipeline_is_start(run: RunView, events: Seq<RunEventView>)
    requires
        run_after(run, events).phase is AwaitingPipeline,
    ensures
        events.len() == 0,
{
}

/// What a run that waits for a status record has seen: the pipeline, and
/// after it one created record for each step that is bound, in the order of
/// the plan. The plan is that of the pipeline for the branch.
pub proof fn lemma_bindings_follow_events(run: RunView, events: Seq<RunEventView>)
    requires
        run.phase is AwaitingPipeline,
        run_after(run, events).phase is AwaitingStatusRecord,
    ensures
        ({
            let plan = run_after(run, events).phase->plan;
            let bindings = run_after(run, events).phase->bindings;
            &&& events.len() == bindings.len() + 1
            &&& bindings.len() < plan.len()
            &&& events[0] is PipelineFetched
            &&& compile_spec(events[0]->document, run.trigger.head_commit) is Ok
            &&& plan == applicable_steps(
                compile_spec(events[0]->document, run.trigger.head_commit)->Ok_0,
                run.trigger.head_branch,
            )
            &&& forall|i: int| 1 <= i < events.len() ==> (#[trigger] events[i]) is StatusRecordCreated
            &&& bindings == bind(plan, created_ids(events.skip(1)))
        }),
    decreases events.len(),
{
    let front = events.drop_last();
    let last = events.last();
    let before = run_after(run, front);
    lemma_run_after_keeps(run, front);
    let plan = run_after(run, events).phase->plan;
    let bindings = run_after(run, events).phase->bindings;
    match before.phase {
        PhaseView::AwaitingPipeline => {
            lemma_awaiting_pipeline_is_start(run, front);
        },
        PhaseView::AwaitingStatusRecord { plan: old_plan, bindings: old_bindings } => {
            lemma_bindings_follow_events(run, front);
            assert forall|i: int| 1 <= i < events.len() implies (#[trigger] events[i])
                is StatusRecordCreated by {
                if i < front.len() {
                    assert(events[i] == front[i]);
                }
            }
            let ids = created_ids(events.skip(1));
            assert forall|i: int| 0 <= i < bindings.len() implies bindings[i] == bind(plan, ids)[i] by {
                if i < old_bindings.len() {
                    assert(bindings[i] == old_bindings[i]);
                } else {
                    assert(events.skip(1)[i] == last);
                }
            }
        },
        PhaseView::AwaitingDispatch => {},
        PhaseView::Finished => {},
    }
}

/// A workload is submitted only for a whole plan. Where the run that an
/// event set off answers an event with a workload, the events up to it are
/// the pipeline and then one created status record for every step of the
/// plan, and the workload is that of the plan bound to these records, in
/// order. No rejected record comes before a workload.
pub proof fn lemma_submitted_workload_is_whole_plan(
    run: RunView,
    events: Seq<RunEventView>,
    j: int,
)
    requires
        run.phase is AwaitingPipeline,
        0 <= j < events.len(),
        action_at(run, events, j) is SubmitWorkload,
    ensures
        events[0] is PipelineFetched,
        compile_spec(events[0]->document, run.trigger.head_commit) is Ok,
        ({
            let plan = applicable_steps(
                compile_spec(events[0]->document, run.trigger.head_commit)->Ok_0,
                run.trigger.head_branch,
            );
            &&& j == plan.len()
            &&& j >= 1
            &&& forall|i: int| 1 <= i <= j ==> (#[trigger] events[i]) is StatusRecordCreated
            &&& action_at(run, events, j)->workload == workload_spec(
                bind(plan, created_ids(events.subrange(1, j + 1))),
                run.trigger.head_commit,
                run.trigger.repository,
                run.trigger.head_branch,
                run.namespace,
                run.trigger.installation_id,
            )
        }),
{
    let seen = events.take(j);
    let before = run_after(run, seen);
    lemma_run_after_keeps(run, seen);
    lemma_bindings_follow_events(run, seen);
    let plan = before.phase->plan;
    let bindings = before.phase->bindings;
    assert forall|i: int| 1 <= i <= j implies (#[trigger] events[i]) is StatusRecordCreated by {
        if i < j {
            assert(events[i] == seen[i]);
        }
    }
    let bound = bindings.push(
        StepBindingView { step: plan[bindings.len() as int], status_record_id: events[j]->id },
    );
    let ids = created_ids(events.subrange(1, j + 1));
    assert forall|i: int| 0 <= i < bound.len() implies bound[i] == bind(plan, ids)[i] by {
        if i < bindings.len() {
            assert(bound[i] == bindings[i]);
        } else {
            assert(events.subrange(1, j + 1)[i] == events[j]);
        }
    }
    assert(bound =~= bind(plan, ids));
}

/// Two runs for the same commit of the same repository meet under one name:
/// whatever else differs between them, the workloads that they submit are
/// named alike.
pub proof fn lemma_runs_of_one_commit_share_a_name(
    first: RunView,
    first_events: Seq<RunEventView>,
    i: int,
    second: RunView,
    second_events: Seq<RunEventView>,
    j: int,
)
    requires
        first.phase is AwaitingPipeline,
        second.phase is AwaitingPipeline,
        first.trigger.repository == second.trigger.repository,
        first.trigger.head_commit == second.trigger.head_commit,
        0 <= i < first_events.len(),
        0 <= j < second_events.len(),
        action_at(first, first_events, i) is SubmitWorkload,
        action_at(second, second_events, j) is SubmitWorkload,
    ensures
        action_at(first, first_events, i)->workload.name == action_at(
            second,
            second_events,
            j,
        )->workload.name,
        action_at(first, first_events, i)->workload.name == workload_name_spec(
            first.trigger.repository,
            first.trigger.head_commit,
        ),
{
    lemma_submitted_workload_is_whole_plan(first, first_events, i);
    lemma_submitted_workload_is_whole_plan(second, second_events, j);
}

/// The units of a submitted workload are the steps of the plan: the same
/// names in the same order, which is the order of the pipeline, no name
/// twice, and each unit with the status record that was created for its
/// step.
pub proof fn lemma_workload_keeps_plan_order(run: RunView, events: Seq<RunEventView>, j: int)
    requires
        run.phase is AwaitingPipeline,
        0 <= j < events.len(),
        action_at(run, events, j) is SubmitWorkload,
    ensures
        ({
            let plan = applicable_steps(
                compile_spec(events[0]->document, run.trigger.head_commit)->Ok_0,
                run.trigger.head_branch,
            );
            let units = action_at(run, events, j)->workload.units;
            &&& unit_names(units) == step_names(plan)
            &&& distinct_names(plan)
            &&& forall|i: int|
                0 <= i < units.len() ==> (#[trigger] units[i]).status_record_id == events[i + 1]->id
        }),
{
    lemma_submitted_workload_is_whole_plan(run, events, j);
    let document = events[0]->document;
    let steps = compile_spec(document, run.trigger.head_commit)->Ok_0;
    lemma_compile_distinct(document, run.trigger.head_commit);
    lemma_applicable_steps_distinct(steps, run.trigger.head_branch);
}

/// The events of a run in which every call succeeds: the pipeline, and one
/// created status record for each identifier.
pub open spec fn events_of_success(document: Seq<char>, ids: Seq<u64>) -> Seq<RunEventView> {
    seq![RunEventView::PipelineFetched { document }] + Seq::new(
        ids.len(),
        |i: int| RunEventView::StatusRecordCreated { id: ids[i] },
    )
}

/// Where every call succeeds, the run asks for the status record of each
/// step of the plan, in order, and answers the last of them with the
/// workload of the whole plan.
pub proof fn lemma_success_submits_whole_plan(
    trigger: CheckSuiteEventView,
    namespace: Seq<char>,
    document: Seq<char>,
    ids: Seq<u64>,
)
    requires
        trigger.action == "requested"@,
        compile_spec(document, trigger.head_commit) is Ok,
        ids.len() == applicable_steps(
            compile_spec(document, trigger.head_commit)->Ok_0,
            trigger.head_branch,
        ).len(),
        ids.len() > 0,
    ensures
        ({
            let start = start_spec(trigger, namespace).0;
            let events = events_of_success(document, ids);
            let plan = applicable_steps(
                compile_spec(document, trigger.head_commit)->Ok_0,
                trigger.head_branch,
            );
            &&& forall|i: int|
                0 <= i < plan.len() ==> #[trigger] action_at(start, events, i)
                    == (RunActionView::CreateStatusRecord {
                    step_name: plan[i].name,
                    commit: trigger.head_commit,
                })
            &&& action_at(start, events, plan.len() as int) == (RunActionView::SubmitWorkload {
                workload: workload_spec(
                    bind(plan, ids),
                    trigger.head_commit,
                    trigger.repository,
                    trigger.head_branch,
                    namespace,
                    trigger.installation_id,
                ),
            })
        }),
{
    let start = start_spec(trigger, namespace).0;
    let events = events_of_success(document, ids);
    let steps = compile_spec(document, trigger.head_commit)->Ok_0;
    let plan = applicable_steps(steps, trigger.head_branch);
    let n = plan.len() as int;
    assert(steps.len() > 0) by {
        if steps.len() == 0 {
            steps.lemma_filter_len(crate::plan::applies_to(trigger.head_branch));
        }
    }
    assert forall|i: int| 0 <= i < n implies #[trigger] action_at(start, events, i)
        == (RunActionView::CreateStatusRecord {
        step_name: plan[i].name,
        commit: trigger.head_commit,
    }) by {
        lemma_success_prefix(trigger, namespace, document, ids, i);
        if i > 0 {
            assert(events[i] == (RunEventView::StatusRecordCreated { id: ids[i - 1] }));
        }
    }
    lemma_success_prefix(trigger, namespace, document, ids, n);
    let bound = bind(plan, ids.take(n - 1)).push(
        StepBindingView { step: plan[n - 1], status_record_id: ids[n - 1] },
    );
    assert(bound =~= bind(plan, ids));
}

/// In a run in which every call succeeds, the run after the pipeline and
/// `k - 1` created records waits for the record of step `k - 1` of the plan.
proof fn lemma_success_prefix(
    trigger: CheckSuiteEventView,
    namespace: Seq<char>,
    document: Seq<char>,
    ids: Seq<u64>,
    k: int,
)
    requires
        trigger.action == "requested"@,
        compile_spec(document, trigger.head_commit) is Ok,
        ids.len() == applicable_steps(
            compile_spec(document, trigger.head_commit)->Ok_0,
            trigger.head_branch,
        ).len(),
        compile_spec(document, trigger.head_commit)->Ok_0.len() > 0,
        0 <= k <= ids.len(),
    ensures
        ({
            let start = start_spec(trigger, namespace).0;
            let events = events_of_success(document, ids);
            let plan = applicable_steps(
                compile_spec(document, trigger.head_commit)->Ok_0,
                trigger.head_branch,
            );
            run_after(start, events.take(k)) == if k == 0 {
                start
            } else {
                RunView {
                    phase: PhaseView::AwaitingStatusRecord {
                        plan,
                        bindings: bind(plan, ids.take(k - 1)),
                    },
                    ..start
                }
            }
        }),
    decreases k,
{
    let events = events_of_success(document, ids);
    let plan = applicable_steps(
        compile_spec(document, trigger.head_commit)->Ok_0,
        trigger.head_branch,
    );
    if k == 0 {
        assert(events.take(0) =~= Seq::<RunEventView>::empty());
    } else {
        lemma_success_prefix(trigger, namespace, document, ids, k - 1);
        assert(events.take(k).drop_last() =~= events.take(k - 1));
        if k == 1 {
            assert(bind(plan, ids.take(0)) =~= Seq::<StepBindingView>::empty());
        } else {
            let bound = bind(plan, ids.take(k - 2)).push(
                StepBindingView { step: plan[k - 2], status_record_id: ids[k - 2] },
            );
            assert(bound =~= bind(plan, ids.take(k - 1)));
        }
    }
}

} // verus!
