//! The run that one check-suite event sets off, as a state machine.
//!
//! The library decides; its caller does the outside work. [`Run::start`]
//! takes the event and names the first action. The caller performs each
//! action, reports what came of it as a [`RunEvent`] to [`Run::on_event`],
//! and gets the next action, until the action is [`RunAction::Finish`].
//!
//! A run that goes well fetches the pipeline of the commit, compiles it,
//! selects the steps of the branch, has one status record created per
//! selected step, in order, and then submits one workload that holds every
//! step with its record. Where a record cannot be created the run ends
//! without a workload. A workload that the cluster already holds under the
//! same name counts as dispatched.
//!
//! Nothing is tried again within a run: a call that fails ends it. Two
//! events for one commit may both ask for status records before either
//! submits its workload; the records are asked for as "find or create", so
//! they share them, and the name of the workload settles which of the two
//! submissions is the one.

use vstd::prelude::*;
use crate::pipeline::{compile, compile_spec, step_views, CompileError, CompileErrorView, Step, StepView};
use crate::plan::{binding_views, filter, filtered_plan, StepBinding, StepBindingView};
use crate::workload::{generate_workload, workload_spec, Workload, WorkloadView};

verus! {

/// The status code with which a cluster says that a workload of that name
/// already exists.
pub const CONFLICT: u16 = 409;

/// A check-suite event of the source-control provider.
#[derive(Debug, PartialEq, Eq)]
pub struct CheckSuiteEvent {
    /// What happened to the check suite; a run starts on `requested` only.
    pub action: String,
    pub installation_id: u64,
    /// The full name of the repository.
    pub repository: String,
    pub head_commit: String,
    pub head_branch: String,
}

/// The mathematical value of a [`CheckSuiteEvent`].
pub struct CheckSuiteEventView {
    pub action: Seq<char>,
    pub installation_id: u64,
    pub repository: Seq<char>,
    pub head_commit: Seq<char>,
    pub head_branch: Seq<char>,
}

impl View for CheckSuiteEvent {
    type V = CheckSuiteEventView;

    open spec fn view(&self) -> CheckSuiteEventView {
        CheckSuiteEventView {
            action: self.action@,
            installation_id: self.installation_id,
            repository: self.repository@,
            head_commit: self.head_commit@,
            head_branch: self.head_branch@,
        }
    }
}

/// Why a run had nothing to do.
#[derive(Debug, PartialEq, Eq, Clone, Copy)]
pub enum NoWorkReason {
    /// The event did not request a check suite.
    NotRequested,
    /// The commit has no pipeline definition.
    PipelineAbsent,
    /// The pipeline defines no step.
    EmptyPipeline,
    /// The pipeline defines steps, none of them for this branch.
    NoApplicableSteps,
}

/// Why a run failed.
#[derive(Debug, PartialEq, Eq)]
pub enum RunError {
    /// Credential or environment material is missing.
    ConfigurationError { what: String },
    /// The provider rejected the signed token or its exchange.
    AuthenticationFailure { cause: String },
    /// The pipeline definition could not be fetched.
    PipelineFetchFailed { cause: String },
    /// The pipeline definition is present and invalid.
    InvalidPipeline { defect: CompileError },
    /// The status record of this step could not be created.
    StatusRecordCreationFailed { step_name: String, cause: String },
    /// The cluster refused the workload for another reason than a conflict.
    WorkloadDispatchFailed { cause: String },
    /// An event arrived that answers no action of the run.
    UnexpectedEvent,
}

/// The mathematical value of a [`RunError`].
pub enum RunErrorView {
    ConfigurationError { what: Seq<char> },
    AuthenticationFailure { cause: Seq<char> },
    PipelineFetchFailed { cause: Seq<char> },
    InvalidPipeline { defect: CompileErrorView },
    StatusRecordCreationFailed { step_name: Seq<char>, cause: Seq<char> },
    WorkloadDispatchFailed { cause: Seq<char> },
    UnexpectedEvent,
}

impl View for RunError {
    type V = RunErrorView;

    open spec fn view(&self) -> RunErrorView {
        match self {
            RunError::ConfigurationError { what } => RunErrorView::ConfigurationError { what: what@ },
            RunError::AuthenticationFailure { cause } => RunErrorView::AuthenticationFailure {
                cause: cause@,
            },
            RunError::PipelineFetchFailed { cause } => RunErrorView::PipelineFetchFailed {
                cause: cause@,
            },
            RunError::InvalidPipeline { defect } => RunErrorView::InvalidPipeline { defect: defect@ },
            RunError::StatusRecordCreationFailed {
                step_name,
                cause,
            } => RunErrorView::StatusRecordCreationFailed { step_name: step_name@, cause: cause@ },
            RunError::WorkloadDispatchFailed { cause } => RunErrorView::WorkloadDispatchFailed {
                cause: cause@,
            },
            RunError::UnexpectedEvent => RunErrorView::UnexpectedEvent,
        }
    }
}

/// How a run ended.
#[derive(Debug, PartialEq, Eq)]
pub enum RunOutcome {
    /// There was nothing to run. No status record and no workload was made.
    NoWork { reason: NoWorkReason },
    /// The cluster accepted the workload.
    Dispatched,
    /// The cluster already held the workload of this commit.
    AlreadyDispatched,
    /// The run failed.
    Failed { error: RunError },
}

/// The mathematical value of a [`RunOutcome`].
pub enum RunOutcomeView {
    NoWork { reason: NoWorkReason },
    Dispatched,
    AlreadyDispatched,
    Failed { error: RunErrorView },
}

impl View for RunOutcome {
    type V = RunOutcomeView;

    open spec fn view(&self) -> RunOutcomeView {
        match self {
            RunOutcome::NoWork { reason } => RunOutcomeView::NoWork { reason: *reason },
            RunOutcome::Dispatched => RunOutcomeView::Dispatched,
            RunOutcome::AlreadyDispatched => RunOutcomeView::AlreadyDispatched,
            RunOutcome::Failed { error } => RunOutcomeView::Failed { error: error@ },
        }
    }
}

/// What the caller reports back after an action.
#[derive(Debug, PartialEq, Eq)]
pub enum RunEvent {
    /// Credential or environment material was missing.
    ConfigurationMissing { what: String },
    /// The provider rejected the authentication.
    AuthenticationRejected { cause: String },
    /// The commit has no pipeline definition.
    PipelineAbsent,
    /// The pipeline definition of the commit.
    PipelineFetched { document: String },
    /// The pipeline definition could not be fetched.
    PipelineFetchFailed { cause: String },
    /// The status record that was asked for has this identifier.
    StatusRecordCreated { id: u64 },
    /// The status record that was asked for could not be created.
    StatusRecordRejected { cause: String },
    /// The cluster accepted the workload.
    WorkloadAccepted,
    /// The cluster did not accept the workload. `code` is the status code of
    /// its answer, where it gave one.
    WorkloadRejected { code: Option<u16>, cause: String },
}

/// The mathematical value of a [`RunEvent`].
pub enum RunEventView {
    ConfigurationMissing { what: Seq<char> },
    AuthenticationRejected { cause: Seq<char> },
    PipelineAbsent,
    PipelineFetched { document: Seq<char> },
    PipelineFetchFailed { cause: Seq<char> },
    StatusRecordCreated { id: u64 },
    StatusRecordRejected { cause: Seq<char> },
    WorkloadAccepted,
    WorkloadRejected { code: Option<u16>, cause: Seq<char> },
}

impl View for RunEvent {
    type V = RunEventView;

    open spec fn view(&self) -> RunEventView {
        match self {
            RunEvent::ConfigurationMissing { what } => RunEventView::ConfigurationMissing {
                what: what@,
            },
            RunEvent::AuthenticationRejected { cause } => RunEventView::AuthenticationRejected {
                cause: cause@,
            },
            RunEvent::PipelineAbsent => RunEventView::PipelineAbsent,
            RunEvent::PipelineFetched { document } => RunEventView::PipelineFetched {
                document: document@,
            },
            RunEvent::PipelineFetchFailed { cause } => RunEventView::PipelineFetchFailed {
                cause: cause@,
            },
            RunEvent::StatusRecordCreated { id } => RunEventView::StatusRecordCreated { id: *id },
            RunEvent::StatusRecordRejected { cause } => RunEventView::StatusRecordRejected {
                cause: cause@,
            },
            RunEvent::WorkloadAccepted => RunEventView::WorkloadAccepted,
            RunEvent::WorkloadRejected { code, cause } => RunEventView::WorkloadRejected {
                code: *code,
                cause: cause@,
            },
        }
    }
}

/// What the caller is to do next.
#[derive(Debug, PartialEq, Eq)]
pub enum RunAction {
    /// Fetch the pipeline definition of the commit.
    FetchPipeline { repository: String, commit: String, installation_id: u64 },
    /// Find the status record of this step for the commit, or create it
    /// where there is none: a second event for the same commit gets the
    /// records of the first.
    CreateStatusRecord { step_name: String, commit: String },
    /// Submit the workload to the cluster.
    SubmitWorkload { workload: Workload },
    /// The run is over.
    Finish { outcome: RunOutcome },
}

/// The mathematical value of a [`RunAction`].
pub enum RunActionView {
    FetchPipeline { repository: Seq<char>, commit: Seq<char>, installation_id: u64 },
    CreateStatusRecord { step_name: Seq<char>, commit: Seq<char> },
    SubmitWorkload { workload: WorkloadView },
    Finish { outcome: RunOutcomeView },
}

impl View for RunAction {
    type V = RunActionView;

    open spec fn view(&self) -> RunActionView {
        match self {
            RunAction::FetchPipeline {
                repository,
                commit,
                installation_id,
            } => RunActionView::FetchPipeline {
                repository: repository@,
                commit: commit@,
                installation_id: *installation_id,
            },
            RunAction::CreateStatusRecord { step_name, commit } => RunActionView::CreateStatusRecord {
                step_name: step_name@,
                commit: commit@,
            },
            RunAction::SubmitWorkload { workload } => RunActionView::SubmitWorkload {
                workload: workload@,
            },
            RunAction::Finish { outcome } => RunActionView::Finish { outcome: outcome@ },
        }
    }
}

/// Where a run stands.
#[derive(Debug, PartialEq, Eq)]
pub enum Phase {
    /// The pipeline definition was asked for.
    AwaitingPipeline,
    /// The status record of the first step of `plan` that has no binding yet
    /// was asked for.
    AwaitingStatusRecord { plan: Vec<Step>, bindings: Vec<StepBinding> },
    /// The workload was handed over for submission.
    AwaitingDispatch,
    /// The run is over.
    Finished,
}

/// The mathematical value of a [`Phase`].
pub enum PhaseView {
    AwaitingPipeline,
    AwaitingStatusRecord { plan: Seq<StepView>, bindings: Seq<StepBindingView> },
    AwaitingDispatch,
    Finished,
}

impl View for Phase {
    type V = PhaseView;

    open spec fn view(&self) -> PhaseView {
        match self {
            Phase::AwaitingPipeline => PhaseView::AwaitingPipeline,
            Phase::AwaitingStatusRecord { plan, bindings } => PhaseView::AwaitingStatusRecord {
                plan: step_views(plan@),
                bindings: binding_views(bindings@),
            },
            Phase::AwaitingDispatch => PhaseView::AwaitingDispatch,
            Phase::Finished => PhaseView::Finished,
        }
    }
}

/// One run: the event that set it off, the namespace its workload goes to,
/// and where it stands.
#[derive(Debug, PartialEq, Eq)]
pub struct Run {
    pub trigger: CheckSuiteEvent,
    pub namespace: String,
    pub phase: Phase,
}

/// The mathematical value of a [`Run`].
pub struct RunView {
    pub trigger: CheckSuiteEventView,
    pub namespace: Seq<char>,
    pub phase: PhaseView,
}

impl View for Run {
    type V = RunView;

    open spec fn view(&self) -> RunView {
        RunView { trigger: self.trigger@, namespace: self.namespace@, phase: self.phase@ }
    }
}

impl RunView {
    /// While status records are being created, fewer steps are bound than
    /// planned, and the bindings are those of the first steps of the plan, in
    /// order.
    pub open spec fn wf(self) -> bool {
        match self.phase {
            PhaseView::AwaitingStatusRecord { plan, bindings } => {
                &&& bindings.len() < plan.len()
                &&& forall|i: int| 0 <= i < bindings.len() ==> (#[trigger] bindings[i]).step == plan[i]
            },
            _ => true,
        }
    }

    /// This run, over, with the given outcome to report.
    pub open spec fn finish(self, outcome: RunOutcomeView) -> (RunView, RunActionView) {
        (RunView { phase: PhaseView::Finished, ..self }, RunActionView::Finish { outcome })
    }

    /// This run, over, after an event that answers none of its actions.
    pub open spec fn unexpected(self) -> (RunView, RunActionView) {
        self.finish(RunOutcomeView::Failed { error: RunErrorView::UnexpectedEvent })
    }
}

/// The run that an event sets off, and its first action. Only a `requested`
/// event sets off work.
pub open spec fn start_spec(trigger: CheckSuiteEventView, namespace: Seq<char>) -> (
    RunView,
    RunActionView,
) {
    if trigger.action == "requested"@ {
        (
            RunView { trigger, namespace, phase: PhaseView::AwaitingPipeline },
            RunActionView::FetchPipeline {
                repository: trigger.repository,
                commit: trigger.head_commit,
                installation_id: trigger.installation_id,
            },
        )
    } else {
        (
            RunView { trigger, namespace, phase: PhaseView::Finished },
            RunActionView::Finish {
                outcome: RunOutcomeView::NoWork { reason: NoWorkReason::NotRequested },
            },
        )
    }
}

/// What follows the answer to the request for the pipeline definition.
pub open spec fn on_pipeline(run: RunView, event: RunEventView) -> (RunView, RunActionView) {
    match event {
        RunEventView::ConfigurationMissing { what } => run.finish(
            RunOutcomeView::Failed { error: RunErrorView::ConfigurationError { what } },
        ),
        RunEventView::AuthenticationRejected { cause } => run.finish(
            RunOutcomeView::Failed { error: RunErrorView::AuthenticationFailure { cause } },
        ),
        RunEventView::PipelineFetchFailed { cause } => run.finish(
            RunOutcomeView::Failed { error: RunErrorView::PipelineFetchFailed { cause } },
        ),
        RunEventView::PipelineAbsent => run.finish(
            RunOutcomeView::NoWork { reason: NoWorkReason::PipelineAbsent },
        ),
        RunEventView::PipelineFetched { document } => match compile_spec(
            document,
            run.trigger.head_commit,
        ) {
            Err(defect) => run.finish(
                RunOutcomeView::Failed { error: RunErrorView::InvalidPipeline { defect } },
            ),
            Ok(steps) => match filtered_plan(steps, run.trigger.head_branch) {
                None => run.finish(RunOutcomeView::NoWork { reason: NoWorkReason::EmptyPipeline }),
                Some(plan) => if plan.len() == 0 {
                    run.finish(RunOutcomeView::NoWork { reason: NoWorkReason::NoApplicableSteps })
                } else {
                    (
                        RunView {
                            phase: PhaseView::AwaitingStatusRecord { plan, bindings: Seq::empty() },
                            ..run
                        },
                        RunActionView::CreateStatusRecord {
                            step_name: plan[0].name,
                            commit: run.trigger.head_commit,
                        },
                    )
                },
            },
        },
        _ => run.unexpected(),
    }
}

/// What follows the answer to the request for the status record of the step
/// behind the bound ones.
pub open spec fn on_status_record(
    run: RunView,
    plan: Seq<StepView>,
    bindings: Seq<StepBindingView>,
    event: RunEventView,
) -> (RunView, RunActionView) {
    match event {
        RunEventView::StatusRecordCreated { id } => {
            let bound = bindings.push(
                StepBindingView { step: plan[bindings.len() as int], status_record_id: id },
            );
            if bound.len() < plan.len() {
                (
                    RunView {
                        phase: PhaseView::AwaitingStatusRecord { plan, bindings: bound },
                        ..run
                    },
                    RunActionView::CreateStatusRecord {
                        step_name: plan[bound.len() as int].name,
                        commit: run.trigger.head_commit,
                    },
                )
            } else {
                (
                    RunView { phase: PhaseView::AwaitingDispatch, ..run },
                    RunActionView::SubmitWorkload {
                        workload: workload_spec(
                            bound,
                            run.trigger.head_commit,
                            run.trigger.repository,
                            run.trigger.head_branch,
                            run.namespace,
                            run.trigger.installation_id,
                        ),
                    },
                )
            }
        },
        RunEventView::StatusRecordRejected { cause } => run.finish(
            RunOutcomeView::Failed {
                error: RunErrorView::StatusRecordCreationFailed {
                    step_name: plan[bindings.len() as int].name,
                    cause,
                },
            },
        ),
        _ => run.unexpected(),
    }
}

/// What follows the cluster's answer to the workload. A conflict says that
/// the workload of this commit is there already, which is what was wanted.
pub open spec fn on_dispatch(run: RunView, event: RunEventView) -> (RunView, RunActionView) {
    match event {
        RunEventView::WorkloadAccepted => run.finish(RunOutcomeView::Dispatched),
        RunEventView::WorkloadRejected { code, cause } => if code == Some(CONFLICT) {
            run.finish(RunOutcomeView::AlreadyDispatched)
        } else {
            run.finish(RunOutcomeView::Failed { error: RunErrorView::WorkloadDispatchFailed { cause } })
        },
        _ => run.unexpected(),
    }
}

/// The run after an event, and the next action.
pub open spec fn transition(run: RunView, event: RunEventView) -> (RunView, RunActionView) {
    match run.phase {
        PhaseView::AwaitingPipeline => on_pipeline(run, event),
        PhaseView::AwaitingStatusRecord { plan, bindings } => on_status_record(
            run,
            plan,
            bindings,
            event,
        ),
        PhaseView::AwaitingDispatch => on_dispatch(run, event),
        PhaseView::Finished => run.unexpected(),
    }
}

/// The namespace that workloads go to where none is configured.
pub open spec fn default_namespace() -> Seq<char> {
    "default"@
}

/// The namespace that workloads go to: the configured one, or `default`.
pub fn resolve_namespace(configured: Option<String>) -> (out: String)
    ensures
        out@ == match configured {
            Some(namespace) => namespace@,
            None => default_namespace(),
        },
{
    match configured {
        Some(namespace) => namespace,
        None => "default".to_owned(),
    }
}

impl Run {
    /// A run is well formed where its value is.
    pub open spec fn wf(&self) -> bool {
        self@.wf()
    }

    /// Starts the run of an event whose workload is to go to `namespace`.
    pub fn start(trigger: CheckSuiteEvent, namespace: String) -> (out: (Run, RunAction))
        ensures
            out.0.wf(),
            (out.0@, out.1@) == start_spec(trigger@, namespace@),
    {
        let requested = "requested".to_owned();
        if trigger.action == requested {
            let action = RunAction::FetchPipeline {
                repository: trigger.repository.clone(),
                commit: trigger.head_commit.clone(),
                installation_id: trigger.installation_id,
            };
            (Run { trigger, namespace, phase: Phase::AwaitingPipeline }, action)
        } else {
            (
                Run { trigger, namespace, phase: Phase::Finished },
                RunAction::Finish { outcome: RunOutcome::NoWork { reason: NoWorkReason::NotRequested } },
            )
        }
    }

    fn finish(trigger: CheckSuiteEvent, namespace: String, outcome: RunOutcome) -> (out: (
        Run,
        RunAction,
    ))
        ensures
            out.0.wf(),
            (out.0@, out.1@) == (RunView {
                trigger: trigger@,
                namespace: namespace@,
                phase: PhaseView::Finished,
            }).finish(outcome@),
    {
        (Run { trigger, namespace, phase: Phase::Finished }, RunAction::Finish { outcome })
    }

    fn after_pipeline(trigger: CheckSuiteEvent, namespace: String, event: RunEvent) -> (out: (
        Run,
        RunAction,
    ))
        ensures
            out.0.wf(),
            (out.0@, out.1@) == on_pipeline(
                RunView {
                    trigger: trigger@,
                    namespace: namespace@,
                    phase: PhaseView::AwaitingPipeline,
                },
                event@,
            ),
    {
        match event {
            RunEvent::ConfigurationMissing { what } => Run::finish(
                trigger,
                namespace,
                RunOutcome::Failed { error: RunError::ConfigurationError { what } },
            ),
            RunEvent::AuthenticationRejected { cause } => Run::finish(
                trigger,
                namespace,
                RunOutcome::Failed { error: RunError::AuthenticationFailure { cause } },
            ),
            RunEvent::PipelineFetchFailed { cause } => Run::finish(
                trigger,
                namespace,
                RunOutcome::Failed { error: RunError::PipelineFetchFailed { cause } },
            ),
            RunEvent::PipelineAbsent => Run::finish(
                trigger,
                namespace,
                RunOutcome::NoWork { reason: NoWorkReason::PipelineAbsent },
            ),
            RunEvent::PipelineFetched { document } => {
                match compile(document.as_str(), trigger.head_commit.as_str()) {
                    Err(defect) => Run::finish(
                        trigger,
                        namespace,
                        RunOutcome::Failed { error: RunError::InvalidPipeline { defect } },
                    ),
                    Ok(pipeline) => match filter(&pipeline.steps, trigger.head_branch.as_str()) {
                        None => Run::finish(
                            trigger,
                            namespace,
                            RunOutcome::NoWork { reason: NoWorkReason::EmptyPipeline },
                        ),
                        Some(plan) => {
                            if plan.len() == 0 {
                                Run::finish(
                                    trigger,
                                    namespace,
                                    RunOutcome::NoWork { reason: NoWorkReason::NoApplicableSteps },
                                )
                            } else {
                                let action = RunAction::CreateStatusRecord {
                                    step_name: plan[0].name.clone(),
                                    commit: trigger.head_commit.clone(),
                                };
                                let bindings: Vec<StepBinding> = Vec::new();
                                assert(binding_views(bindings@) =~= Seq::<StepBindingView>::empty());
                                (
                                    Run {
                                        trigger,
                                        namespace,
                                        phase: Phase::AwaitingStatusRecord { plan, bindings },
                                    },
                                    action,
                                )
                            }
                        },
                    },
                }
            },
            _ => Run::finish(
                trigger,
                namespace,
                RunOutcome::Failed { error: RunError::UnexpectedEvent },
            ),
        }
    }

    fn after_status_record(
        trigger: CheckSuiteEvent,
        namespace: String,
        plan: Vec<Step>,
        bindings: Vec<StepBinding>,
        event: RunEvent,
    ) -> (out: (Run, RunAction))
        requires
            (RunView {
                trigger: trigger@,
                namespace: namespace@,
                phase: PhaseView::AwaitingStatusRecord {
                    plan: step_views(plan@),
                    bindings: binding_views(bindings@),
                },
            }).wf(),
        ensures
            out.0.wf(),
            (out.0@, out.1@) == on_status_record(
                RunView {
                    trigger: trigger@,
                    namespace: namespace@,
                    phase: PhaseView::AwaitingStatusRecord {
                        plan: step_views(plan@),
                        bindings: binding_views(bindings@),
                    },
                },
                step_views(plan@),
                binding_views(bindings@),
                event@,
            ),
    {
        let ghost steps = step_views(plan@);
        let ghost before = binding_views(bindings@);
        let k: usize = bindings.len();
        match event {
            RunEvent::StatusRecordCreated { id } => {
                let mut bindings = bindings;
                let binding = StepBinding { step: plan[k].clone(), status_record_id: id };
                assert(binding_views(bindings@.push(binding)) =~= before.push(
                    StepBindingView { step: steps[k as int], status_record_id: id },
                ));
                bindings.push(binding);
                if bindings.len() < plan.len() {
                    let action = RunAction::CreateStatusRecord {
                        step_name: plan[bindings.len()].name.clone(),
                        commit: trigger.head_commit.clone(),
                    };
                    assert forall|i: int| 0 <= i < binding_views(bindings@).len() implies (
                    #[trigger] binding_views(bindings@)[i]).step == steps[i] by {
                        if i < k {
                            assert(binding_views(bindings@)[i] == before[i]);
                        }
                    }
                    (
                        Run {
                            trigger,
                            namespace,
                            phase: Phase::AwaitingStatusRecord { plan, bindings },
                        },
                        action,
                    )
                } else {
                    match generate_workload(
                        &bindings,
                        trigger.head_commit.as_str(),
                        trigger.repository.as_str(),
                        trigger.head_branch.as_str(),
                        namespace.as_str(),
                        trigger.installation_id,
                    ) {
                        Ok(workload) => (
                            Run { trigger, namespace, phase: Phase::AwaitingDispatch },
                            RunAction::SubmitWorkload { workload },
                        ),
                        Err(_) => {
                            // A workload is refused only for want of bindings, and
                            // here the last step has just been bound.
                            assert(false);
                            Run::finish(
                                trigger,
                                namespace,
                                RunOutcome::Failed { error: RunError::UnexpectedEvent },
                            )
                        },
                    }
                }
            },
            RunEvent::StatusRecordRejected { cause } => {
                let step_name = plan[k].name.clone();
                Run::finish(
                    trigger,
                    namespace,
                    RunOutcome::Failed {
                        error: RunError::StatusRecordCreationFailed { step_name, cause },
                    },
                )
            },
            _ => Run::finish(
                trigger,
                namespace,
                RunOutcome::Failed { error: RunError::UnexpectedEvent },
            ),
        }
    }

    fn after_dispatch(trigger: CheckSuiteEvent, namespace: String, event: RunEvent) -> (out: (
        Run,
        RunAction,
    ))
        ensures
            out.0.wf(),
            (out.0@, out.1@) == on_dispatch(
                RunView {
                    trigger: trigger@,
                    namespace: namespace@,
                    phase: PhaseView::AwaitingDispatch,
                },
                event@,
            ),
    {
        match event {
            RunEvent::WorkloadAccepted => Run::finish(trigger, namespace, RunOutcome::Dispatched),
            RunEvent::WorkloadRejected { code, cause } => {
                let conflict = match code {
                    Some(c) => c == CONFLICT,
                    None => false,
                };
                if conflict {
                    Run::finish(trigger, namespace, RunOutcome::AlreadyDispatched)
                } else {
                    Run::finish(
                        trigger,
                        namespace,
                        RunOutcome::Failed { error: RunError::WorkloadDispatchFailed { cause } },
                    )
                }
            },
            _ => Run::finish(
                trigger,
                namespace,
                RunOutcome::Failed { error: RunError::UnexpectedEvent },
            ),
        }
    }

    /// Takes what came of the last action and names the next one.
    pub fn on_event(self, event: RunEvent) -> (out: (Run, RunAction))
        requires
            self.wf(),
        ensures
            out.0.wf(),
            (out.0@, out.1@) == transition(self@, event@),
    {
        let Run { trigger, namespace, phase } = self;
        match phase {
            Phase::AwaitingPipeline => Run::after_pipeline(trigger, namespace, event),
            Phase::AwaitingStatusRecord { plan, bindings } => Run::after_status_record(
                trigger,
                namespace,
                plan,
                bindings,
                event,
            ),
            Phase::AwaitingDispatch => Run::after_dispatch(trigger, namespace, event),
            Phase::Finished => Run::finish(
                trigger,
                namespace,
                RunOutcome::Failed { error: RunError::UnexpectedEvent },
            ),
        }
    }

    /// Whether the run is over.
    pub fn is_finished(&self) -> (over: bool)
        ensures
            over == (self@.phase is Finished),
    {
        match &self.phase {
            Phase::Finished => true,
            _ => false,
        }
    }
}

} // verus!
