use ci_orchestrator::pipeline::CompileError;
use ci_orchestrator::report::{acknowledge, STATUS_INTERNAL_ERROR, STATUS_OK};
use ci_orchestrator::run::{
    resolve_namespace, CheckSuiteEvent, NoWorkReason, Phase, Run, RunAction, RunError, RunEvent,
    RunOutcome, CONFLICT,
};
use ci_orchestrator::status::{StatusBoard, StatusState};
use ci_orchestrator::workload::Workload;

/// The outside world of a run: the provider's pipeline and status records,
/// and the cluster's workloads.
struct World {
    pipeline: Option<String>,
    board: StatusBoard,
    cluster: Vec<Workload>,
    /// The create call, counted from one, that the provider rejects.
    reject_create: Option<usize>,
    fetches: usize,
    creates: usize,
    submissions: usize,
    conflicts: usize,
}

fn world(pipeline: Option<&str>) -> World {
    World {
        pipeline: pipeline.map(|p| p.to_string()),
        board: StatusBoard::new(),
        cluster: Vec::new(),
        reject_create: None,
        fetches: 0,
        creates: 0,
        submissions: 0,
        conflicts: 0,
    }
}

fn requested(commit: &str, branch: &str) -> CheckSuiteEvent {
    CheckSuiteEvent {
        action: "requested".to_string(),
        installation_id: 42,
        repository: "octo/repo".to_string(),
        head_commit: commit.to_string(),
        head_branch: branch.to_string(),
    }
}

fn drive(world: &mut World, trigger: CheckSuiteEvent) -> RunOutcome {
    let (mut run, mut action) = Run::start(trigger, "ci".to_string());
    loop {
        let event = match action {
            RunAction::FetchPipeline { repository, commit: _, installation_id } => {
                assert_eq!(repository, "octo/repo");
                assert_eq!(installation_id, 42);
                world.fetches += 1;
                match &world.pipeline {
                    Some(document) => RunEvent::PipelineFetched { document: document.clone() },
                    None => RunEvent::PipelineAbsent,
                }
            }
            RunAction::CreateStatusRecord { step_name, commit } => {
                world.creates += 1;
                if world.reject_create == Some(world.creates) {
                    RunEvent::StatusRecordRejected { cause: "provider is down".to_string() }
                } else {
                    RunEvent::StatusRecordCreated {
                        id: world.board.find_or_create(&commit, &step_name),
                    }
                }
            }
            RunAction::SubmitWorkload { workload } => {
                world.submissions += 1;
                if world.cluster.iter().any(|w| w.name == workload.name) {
                    world.conflicts += 1;
                    RunEvent::WorkloadRejected {
                        code: Some(CONFLICT),
                        cause: "already exists".to_string(),
                    }
                } else {
                    world.cluster.push(workload);
                    RunEvent::WorkloadAccepted
                }
            }
            RunAction::Finish { outcome } => {
                assert!(run.is_finished());
                return outcome;
            }
        };
        assert!(!run.is_finished());
        let next = run.on_event(event);
        run = next.0;
        action = next.1;
    }
}

fn record_names(board: &StatusBoard) -> Vec<String> {
    board.records.iter().map(|r| r.step_name.clone()).collect()
}

const LINT_TEST: &str = "lint|rust:1.70|cargo clippy\ntest|rust:1.70|cargo test";
const LINT_TEST_DEPLOY: &str =
    "lint|rust:1.70|cargo clippy\ntest|rust:1.70|cargo test\ndeploy|deployer:2|./deploy.sh|main";

#[test]
fn scenario_two_steps_on_a_feature_branch() {
    let mut w = world(Some(LINT_TEST));
    let outcome = drive(&mut w, requested("abc123", "feature/x"));
    assert_eq!(outcome, RunOutcome::Dispatched);
    assert_eq!(record_names(&w.board), vec!["lint", "test"]);
    assert!(w.board.records.iter().all(|r| r.commit == "abc123"));
    assert!(w.board.records.iter().all(|r| r.state == StatusState::Queued));
    assert_eq!(w.cluster.len(), 1);
    let workload = &w.cluster[0];
    assert_eq!(workload.name, "ci-octo-repo-abc123");
    assert_eq!(workload.namespace, "ci");
    assert_eq!(workload.repository, "octo/repo");
    assert_eq!(workload.branch, "feature/x");
    assert_eq!(workload.commit, "abc123");
    assert_eq!(workload.installation_id, 42);
    assert_eq!(workload.units.len(), 2);
    assert_eq!(workload.units[0].name, "lint");
    assert_eq!(workload.units[1].name, "test");
    assert_eq!(Some(workload.units[0].status_record_id), w.board.find("abc123", "lint"));
    assert_eq!(Some(workload.units[1].status_record_id), w.board.find("abc123", "test"));
    assert_ne!(workload.units[0].status_record_id, workload.units[1].status_record_id);
    assert_eq!(acknowledge(&outcome).status, STATUS_OK);
}

#[test]
fn scenario_step_for_main_is_left_out_on_a_feature_branch() {
    let mut w = world(Some(LINT_TEST_DEPLOY));
    let outcome = drive(&mut w, requested("abc123", "feature/x"));
    assert_eq!(outcome, RunOutcome::Dispatched);
    assert_eq!(record_names(&w.board), vec!["lint", "test"]);
    let units: Vec<&str> = w.cluster[0].units.iter().map(|u| u.name.as_str()).collect();
    assert_eq!(units, vec!["lint", "test"]);

    let mut m = world(Some(LINT_TEST_DEPLOY));
    assert_eq!(drive(&mut m, requested("abc123", "main")), RunOutcome::Dispatched);
    assert_eq!(record_names(&m.board), vec!["lint", "test", "deploy"]);
    let units: Vec<&str> = m.cluster[0].units.iter().map(|u| u.name.as_str()).collect();
    assert_eq!(units, vec!["lint", "test", "deploy"]);
}

#[test]
fn scenario_repeated_event_meets_the_first_workload() {
    let mut w = world(Some(LINT_TEST));
    assert_eq!(drive(&mut w, requested("abc123", "feature/x")), RunOutcome::Dispatched);
    let records_before = w.board.len();
    let outcome = drive(&mut w, requested("abc123", "feature/x"));
    assert_eq!(outcome, RunOutcome::AlreadyDispatched);
    assert_eq!(w.board.len(), records_before);
    assert_eq!(w.board.len(), 2);
    assert_eq!(w.submissions, 2);
    assert_eq!(w.conflicts, 1);
    assert_eq!(w.cluster.len(), 1);
    let ack = acknowledge(&outcome);
    assert_eq!(ack.status, STATUS_OK);
    assert_eq!(ack.body, "");
}

#[test]
fn scenario_commit_without_pipeline() {
    let mut w = world(None);
    let outcome = drive(&mut w, requested("def456", "main"));
    assert_eq!(outcome, RunOutcome::NoWork { reason: NoWorkReason::PipelineAbsent });
    assert_eq!(w.board.len(), 0);
    assert_eq!(w.creates, 0);
    assert_eq!(w.submissions, 0);
    assert!(w.cluster.is_empty());
    assert_eq!(acknowledge(&outcome).status, STATUS_OK);
}

#[test]
fn nothing_to_run_makes_no_record_and_no_workload() {
    let mut empty = world(Some("# no steps\n"));
    assert_eq!(
        drive(&mut empty, requested("abc123", "main")),
        RunOutcome::NoWork { reason: NoWorkReason::EmptyPipeline }
    );
    assert_eq!((empty.creates, empty.submissions, empty.board.len()), (0, 0, 0));

    let mut other = world(Some("deploy|img|cmd|main"));
    assert_eq!(
        drive(&mut other, requested("abc123", "feature/x")),
        RunOutcome::NoWork { reason: NoWorkReason::NoApplicableSteps }
    );
    assert_eq!((other.creates, other.submissions, other.board.len()), (0, 0, 0));
    assert!(other.cluster.is_empty());
}

#[test]
fn rejected_third_record_of_five_leaves_no_workload() {
    let mut w = world(Some("a|i|c\nb|i|c\nc|i|c\nd|i|c\ne|i|c"));
    w.reject_create = Some(3);
    let outcome = drive(&mut w, requested("abc123", "main"));
    assert_eq!(
        outcome,
        RunOutcome::Failed {
            error: RunError::StatusRecordCreationFailed {
                step_name: "c".to_string(),
                cause: "provider is down".to_string(),
            }
        }
    );
    assert_eq!(w.creates, 3);
    assert_eq!(record_names(&w.board), vec!["a", "b"]);
    assert_eq!(w.submissions, 0);
    assert!(w.cluster.is_empty());
    assert_eq!(acknowledge(&outcome).status, STATUS_INTERNAL_ERROR);
}

#[test]
fn other_events_than_requested_set_off_nothing() {
    for action in ["completed", "rerequested", "", "Requested", "requested "] {
        let mut trigger = requested("abc123", "main");
        trigger.action = action.to_string();
        let mut w = world(Some(LINT_TEST));
        let outcome = drive(&mut w, trigger);
        assert_eq!(outcome, RunOutcome::NoWork { reason: NoWorkReason::NotRequested });
        assert_eq!((w.fetches, w.creates, w.submissions), (0, 0, 0));
    }
}

#[test]
fn start_asks_for_the_pipeline_of_the_commit() {
    let (run, action) = Run::start(requested("abc123", "main"), "ci".to_string());
    assert_eq!(
        action,
        RunAction::FetchPipeline {
            repository: "octo/repo".to_string(),
            commit: "abc123".to_string(),
            installation_id: 42,
        }
    );
    assert_eq!(run.phase, Phase::AwaitingPipeline);
    assert_eq!(run.namespace, "ci");
    assert_eq!(run.trigger, requested("abc123", "main"));
    assert!(!run.is_finished());
}

#[test]
fn records_are_asked_for_one_at_a_time_in_plan_order() {
    let (run, _) = Run::start(requested("abc123", "main"), "ci".to_string());
    let (run, action) = run.on_event(RunEvent::PipelineFetched { document: LINT_TEST.to_string() });
    assert_eq!(
        action,
        RunAction::CreateStatusRecord {
            step_name: "lint".to_string(),
            commit: "abc123".to_string()
        }
    );
    let (run, action) = run.on_event(RunEvent::StatusRecordCreated { id: 900 });
    assert_eq!(
        action,
        RunAction::CreateStatusRecord {
            step_name: "test".to_string(),
            commit: "abc123".to_string()
        }
    );
    let (run, action) = run.on_event(RunEvent::StatusRecordCreated { id: 17 });
    match action {
        RunAction::SubmitWorkload { workload } => {
            let ids: Vec<u64> = workload.units.iter().map(|u| u.status_record_id).collect();
            assert_eq!(ids, vec![900, 17]);
        }
        other => panic!("expected a workload, got {:?}", other),
    }
    assert_eq!(run.phase, Phase::AwaitingDispatch);
}

fn failure_of(events: Vec<RunEvent>) -> RunError {
    let (mut run, _) = Run::start(requested("abc123", "main"), "ci".to_string());
    let mut last = None;
    for event in events {
        let next = run.on_event(event);
        run = next.0;
        last = Some(next.1);
    }
    match last {
        Some(RunAction::Finish { outcome: RunOutcome::Failed { error } }) => {
            assert!(run.is_finished());
            error
        }
        other => panic!("expected a failure, got {:?}", other),
    }
}

#[test]
fn each_failure_has_its_error() {
    assert_eq!(
        failure_of(vec![RunEvent::ConfigurationMissing { what: "APPLICATION_ID".to_string() }]),
        RunError::ConfigurationError { what: "APPLICATION_ID".to_string() }
    );
    assert_eq!(
        failure_of(vec![RunEvent::AuthenticationRejected { cause: "bad token".to_string() }]),
        RunError::AuthenticationFailure { cause: "bad token".to_string() }
    );
    assert_eq!(
        failure_of(vec![RunEvent::PipelineFetchFailed { cause: "timeout".to_string() }]),
        RunError::PipelineFetchFailed { cause: "timeout".to_string() }
    );
    assert_eq!(
        failure_of(vec![RunEvent::PipelineFetched { document: "lint|img".to_string() }]),
        RunError::InvalidPipeline {
            defect: CompileError::MalformedPipeline { commit: "abc123".to_string(), line: 1 }
        }
    );
    assert_eq!(
        failure_of(vec![RunEvent::PipelineFetched { document: "a|i|c\na|i|c".to_string() }]),
        RunError::InvalidPipeline {
            defect: CompileError::DuplicateStepName {
                commit: "abc123".to_string(),
                name: "a".to_string()
            }
        }
    );
    assert_eq!(
        failure_of(vec![
            RunEvent::PipelineFetched { document: "a|i|c".to_string() },
            RunEvent::StatusRecordRejected { cause: "no".to_string() },
        ]),
        RunError::StatusRecordCreationFailed { step_name: "a".to_string(), cause: "no".to_string() }
    );
    assert_eq!(
        failure_of(vec![
            RunEvent::PipelineFetched { document: "a|i|c".to_string() },
            RunEvent::StatusRecordCreated { id: 1 },
            RunEvent::WorkloadRejected { code: Some(500), cause: "boom".to_string() },
        ]),
        RunError::WorkloadDispatchFailed { cause: "boom".to_string() }
    );
    assert_eq!(
        failure_of(vec![
            RunEvent::PipelineFetched { document: "a|i|c".to_string() },
            RunEvent::StatusRecordCreated { id: 1 },
            RunEvent::WorkloadRejected { code: None, cause: "unreachable".to_string() },
        ]),
        RunError::WorkloadDispatchFailed { cause: "unreachable".to_string() }
    );
}

#[test]
fn only_a_conflict_counts_as_dispatched() {
    let answer = |code: Option<u16>| {
        let (run, _) = Run::start(requested("abc123", "main"), "ci".to_string());
        let (run, _) = run.on_event(RunEvent::PipelineFetched { document: "a|i|c".to_string() });
        let (run, _) = run.on_event(RunEvent::StatusRecordCreated { id: 1 });
        run.on_event(RunEvent::WorkloadRejected { code, cause: "x".to_string() }).1
    };
    assert_eq!(answer(Some(409)), RunAction::Finish { outcome: RunOutcome::AlreadyDispatched });
    for code in [None, Some(400), Some(408), Some(410), Some(500), Some(0)] {
        assert_eq!(
            answer(code),
            RunAction::Finish {
                outcome: RunOutcome::Failed {
                    error: RunError::WorkloadDispatchFailed { cause: "x".to_string() }
                }
            }
        );
    }
}

#[test]
fn event_that_answers_nothing_ends_the_run() {
    assert_eq!(failure_of(vec![RunEvent::WorkloadAccepted]), RunError::UnexpectedEvent);
    assert_eq!(
        failure_of(vec![RunEvent::StatusRecordCreated { id: 1 }]),
        RunError::UnexpectedEvent
    );
    assert_eq!(
        failure_of(vec![
            RunEvent::PipelineFetched { document: "a|i|c".to_string() },
            RunEvent::PipelineAbsent,
        ]),
        RunError::UnexpectedEvent
    );
    assert_eq!(
        failure_of(vec![
            RunEvent::PipelineFetched { document: "a|i|c".to_string() },
            RunEvent::StatusRecordCreated { id: 1 },
            RunEvent::StatusRecordCreated { id: 2 },
        ]),
        RunError::UnexpectedEvent
    );
    assert_eq!(
        failure_of(vec![RunEvent::PipelineAbsent, RunEvent::WorkloadAccepted]),
        RunError::UnexpectedEvent
    );
}

#[test]
fn after_a_rejected_record_nothing_more_is_made() {
    let (run, _) = Run::start(requested("abc123", "main"), "ci".to_string());
    let (run, _) = run.on_event(RunEvent::PipelineFetched { document: LINT_TEST.to_string() });
    let (run, _) = run.on_event(RunEvent::StatusRecordRejected { cause: "no".to_string() });
    let (run, action) = run.on_event(RunEvent::StatusRecordCreated { id: 5 });
    assert!(matches!(action, RunAction::Finish { .. }));
    let (run, action) = run.on_event(RunEvent::StatusRecordCreated { id: 6 });
    assert!(matches!(action, RunAction::Finish { .. }));
    let (run, action) = run.on_event(RunEvent::WorkloadAccepted);
    assert!(matches!(action, RunAction::Finish { .. }));
    assert!(run.is_finished());
}

#[test]
fn namespace_defaults_to_default() {
    assert_eq!(resolve_namespace(None), "default");
    assert_eq!(resolve_namespace(Some("ci".to_string())), "ci");
    assert_eq!(resolve_namespace(Some("".to_string())), "");
}
