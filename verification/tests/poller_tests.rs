use ci_orchestrator::metadata::{annotations, Annotation};
use ci_orchestrator::pipeline::compile;
use ci_orchestrator::plan::StepBinding;
use ci_orchestrator::poller::{
    conclude, observe_unit, observe_workload, pending_updates, push_workload_updates,
    unit_update, units_updates, AddressedUpdate, CycleReport, ObservedUnit, ObservedWorkload,
    Poller, PollerAction, PollerEvent, PollerPhase, ReconciliationCycleFailed, UnitState,
};
use ci_orchestrator::status::{Conclusion, StatusBoard, StatusState, StatusUpdate};
use ci_orchestrator::workload::generate_workload;

fn unit(name: &str, record: Option<&str>, state: UnitState) -> ObservedUnit {
    ObservedUnit { name: name.to_string(), status_record: record.map(|r| r.to_string()), state }
}

fn done(code: i32) -> UnitState {
    UnitState::Completed { exit_code: code }
}

fn update(id: u64, conclusion: Conclusion) -> StatusUpdate {
    StatusUpdate { status_record_id: id, conclusion }
}

fn sent(repository: &str, installation_id: u64, id: u64, conclusion: Conclusion) -> AddressedUpdate {
    AddressedUpdate {
        repository: repository.to_string(),
        installation_id,
        update: update(id, conclusion),
    }
}

fn workload(
    name: &str,
    repository: Option<&str>,
    installation_id: Option<u64>,
    units: Vec<ObservedUnit>,
) -> ObservedWorkload {
    ObservedWorkload {
        name: name.to_string(),
        repository: repository.map(|r| r.to_string()),
        installation_id,
        units,
    }
}

fn listing() -> Vec<ObservedWorkload> {
    vec![
        workload(
            "ci-octo-repo-abc123",
            Some("octo/repo"),
            Some(42),
            vec![
                unit("lint", Some("11"), done(0)),
                unit("test", Some("12"), UnitState::Pending),
                unit("deploy", Some("13"), done(2)),
            ],
        ),
        workload("ci-octo-repo-empty", Some("octo/repo"), Some(42), Vec::new()),
        workload("somebody-elses", None, None, vec![unit("main", Some("99"), done(0))]),
        workload(
            "ci-other-repo-def456",
            Some("other/repo"),
            Some(7),
            vec![unit("lint", Some("21"), done(-1)), unit("stray", None, done(0))],
        ),
    ]
}

#[test]
fn exit_code_zero_is_success_anything_else_failure() {
    assert_eq!(conclude(0), Conclusion::Success);
    for code in [1, 2, -1, 137, i32::MAX, i32::MIN] {
        assert_eq!(conclude(code), Conclusion::Failure);
    }
}

#[test]
fn pending_unit_calls_for_no_update() {
    assert_eq!(unit_update(&unit("lint", Some("11"), UnitState::Pending)), None);
}

#[test]
fn finished_unit_calls_for_the_update_of_its_record() {
    assert_eq!(
        unit_update(&unit("lint", Some("11"), done(0))),
        Some(update(11, Conclusion::Success))
    );
    assert_eq!(
        unit_update(&unit("lint", Some("11"), done(3))),
        Some(update(11, Conclusion::Failure))
    );
}

#[test]
fn unit_without_readable_record_calls_for_no_update() {
    assert_eq!(unit_update(&unit("lint", None, done(0))), None);
    assert_eq!(unit_update(&unit("lint", Some(""), done(0))), None);
    assert_eq!(unit_update(&unit("lint", Some("eleven"), done(0))), None);
    assert_eq!(unit_update(&unit("lint", Some("18446744073709551616"), done(0))), None);
}

#[test]
fn units_call_for_updates_in_order() {
    assert_eq!(
        units_updates(&listing()[0].units),
        vec![update(11, Conclusion::Success), update(13, Conclusion::Failure)]
    );
    assert_eq!(units_updates(&Vec::new()), Vec::new());
}

#[test]
fn listing_calls_for_addressed_updates_in_order() {
    assert_eq!(
        pending_updates(&listing()),
        vec![
            sent("octo/repo", 42, 11, Conclusion::Success),
            sent("octo/repo", 42, 13, Conclusion::Failure),
            sent("other/repo", 7, 21, Conclusion::Failure),
        ]
    );
    assert_eq!(pending_updates(&Vec::new()), Vec::new());
}

#[test]
fn workload_that_does_not_name_its_run_calls_for_nothing() {
    let units = || vec![unit("lint", Some("11"), done(0))];
    for (repository, installation) in [(None, None), (Some("octo/repo"), None), (None, Some(42))] {
        let mut out = vec![sent("kept", 1, 2, Conclusion::Success)];
        push_workload_updates(&mut out, &workload("w", repository, installation, units()));
        assert_eq!(out, vec![sent("kept", 1, 2, Conclusion::Success)]);
    }
    let mut out = vec![sent("kept", 1, 2, Conclusion::Success)];
    push_workload_updates(&mut out, &workload("w", Some("octo/repo"), Some(42), units()));
    assert_eq!(
        out,
        vec![sent("kept", 1, 2, Conclusion::Success), sent("octo/repo", 42, 11, Conclusion::Success)]
    );
}

#[test]
fn observed_workload_takes_its_run_from_the_metadata() {
    let note =
        |k: &str, v: &str| Annotation { key: k.to_string(), value: v.to_string() };
    let full = vec![note("repository", "octo/repo"), note("installation", "42")];
    assert_eq!(
        observe_workload("w".to_string(), &full, Vec::new()),
        workload("w", Some("octo/repo"), Some(42), Vec::new())
    );
    let bad = vec![note("repository", "octo/repo"), note("installation", "forty-two")];
    assert_eq!(
        observe_workload("w".to_string(), &bad, vec![unit("a", None, done(0))]),
        workload("w", Some("octo/repo"), None, vec![unit("a", None, done(0))])
    );
    assert_eq!(
        observe_workload("w".to_string(), &Vec::new(), Vec::new()),
        workload("w", None, None, Vec::new())
    );
}

#[test]
fn cycle_lists_then_updates_then_sleeps() {
    let poller = Poller::new("ci".to_string());
    assert_eq!(poller.phase, PollerPhase::Idle);
    let (poller, action) = poller.on_event(PollerEvent::Tick);
    assert_eq!(action, PollerAction::ListWorkloads { namespace: "ci".to_string() });
    let (poller, action) = poller.on_event(PollerEvent::Listed { workloads: listing() });
    assert_eq!(
        action,
        PollerAction::UpdateStatusRecord { update: sent("octo/repo", 42, 11, Conclusion::Success) }
    );
    let (poller, action) = poller.on_event(PollerEvent::Updated);
    assert_eq!(
        action,
        PollerAction::UpdateStatusRecord { update: sent("octo/repo", 42, 13, Conclusion::Failure) }
    );
    let (poller, action) = poller.on_event(PollerEvent::Updated);
    assert_eq!(
        action,
        PollerAction::UpdateStatusRecord { update: sent("other/repo", 7, 21, Conclusion::Failure) }
    );
    let (poller, action) = poller.on_event(PollerEvent::Updated);
    assert_eq!(action, PollerAction::Sleep { report: CycleReport::Completed { updates: 3 } });
    assert_eq!(poller, Poller::new("ci".to_string()));
    let (_, action) = poller.on_event(PollerEvent::Tick);
    assert_eq!(action, PollerAction::ListWorkloads { namespace: "ci".to_string() });
}

#[test]
fn cycle_without_finished_units_sleeps_at_once() {
    let (poller, _) = Poller::new("ci".to_string()).on_event(PollerEvent::Tick);
    let (poller, action) = poller.on_event(PollerEvent::Listed { workloads: Vec::new() });
    assert_eq!(action, PollerAction::Sleep { report: CycleReport::Completed { updates: 0 } });
    assert_eq!(poller.phase, PollerPhase::Idle);
}

#[test]
fn failed_listing_skips_the_cycle() {
    let (poller, _) = Poller::new("ci".to_string()).on_event(PollerEvent::Tick);
    let (poller, action) = poller.on_event(PollerEvent::ListFailed { cause: "timeout".to_string() });
    assert_eq!(
        action,
        PollerAction::Sleep {
            report: CycleReport::Failed {
                error: ReconciliationCycleFailed::Listing { cause: "timeout".to_string() }
            }
        }
    );
    let (_, action) = poller.on_event(PollerEvent::Tick);
    assert_eq!(action, PollerAction::ListWorkloads { namespace: "ci".to_string() });
}

#[test]
fn failed_update_ends_the_cycle_and_names_the_record() {
    let (poller, _) = Poller::new("ci".to_string()).on_event(PollerEvent::Tick);
    let (poller, _) = poller.on_event(PollerEvent::Listed { workloads: listing() });
    let (poller, _) = poller.on_event(PollerEvent::Updated);
    let (poller, action) = poller.on_event(PollerEvent::UpdateFailed { cause: "gone".to_string() });
    assert_eq!(
        action,
        PollerAction::Sleep {
            report: CycleReport::Failed {
                error: ReconciliationCycleFailed::Update {
                    status_record_id: 13,
                    cause: "gone".to_string()
                }
            }
        }
    );
    assert_eq!(poller.phase, PollerPhase::Idle);
}

#[test]
fn event_that_answers_nothing_ends_the_cycle() {
    let unexpected = PollerAction::Sleep {
        report: CycleReport::Failed { error: ReconciliationCycleFailed::UnexpectedEvent },
    };
    let (poller, action) = Poller::new("ci".to_string()).on_event(PollerEvent::Updated);
    assert_eq!(action, unexpected);
    assert_eq!(poller.phase, PollerPhase::Idle);
    let (poller, _) = poller.on_event(PollerEvent::Tick);
    let (poller, action) = poller.on_event(PollerEvent::Tick);
    assert_eq!(action, unexpected);
    let (poller, _) = poller.on_event(PollerEvent::Tick);
    let (poller, _) = poller.on_event(PollerEvent::Listed { workloads: listing() });
    let (poller, action) = poller.on_event(PollerEvent::Listed { workloads: listing() });
    assert_eq!(action, unexpected);
    assert_eq!(poller.phase, PollerPhase::Idle);
}

#[test]
fn observed_unit_takes_its_record_from_the_metadata() {
    let notes = vec![
        Annotation { key: "commit".to_string(), value: "abc123".to_string() },
        Annotation { key: "status-record/lint".to_string(), value: "11".to_string() },
        Annotation { key: "status-record/test".to_string(), value: "12".to_string() },
    ];
    assert_eq!(
        observe_unit("test".to_string(), done(0), &notes),
        unit("test", Some("12"), done(0))
    );
    assert_eq!(
        observe_unit("lint".to_string(), UnitState::Pending, &notes),
        unit("lint", Some("11"), UnitState::Pending)
    );
    assert_eq!(
        observe_unit("deploy".to_string(), done(1), &notes),
        unit("deploy", None, done(1))
    );
    assert_eq!(observe_unit("commit".to_string(), done(1), &notes), unit("commit", None, done(1)));
}

#[test]
fn finished_workload_concludes_its_records_and_repeating_changes_nothing() {
    let mut board = StatusBoard::new();
    let pipeline = compile("lint|i|c\ntest|i|c\ndeploy|i|c", "abc123").unwrap();
    let bindings: Vec<StepBinding> = pipeline
        .steps
        .into_iter()
        .map(|step| {
            let id = board.find_or_create("abc123", &step.name);
            StepBinding { step, status_record_id: id }
        })
        .collect();
    let workload = generate_workload(&bindings, "abc123", "octo/repo", "main", "ci", 42).unwrap();
    let notes = annotations(&workload);
    let states = [done(0), UnitState::Pending, done(1)];
    let observe = || {
        vec![observe_workload(
            workload.name.clone(),
            &notes,
            workload
                .units
                .iter()
                .zip(states.iter())
                .map(|(u, s)| observe_unit(u.name.clone(), *s, &notes))
                .collect(),
        )]
    };
    let cycle = |board: &mut StatusBoard| {
        let (mut poller, mut action) = Poller::new("ci".to_string()).on_event(PollerEvent::Tick);
        let mut made = 0;
        loop {
            let event = match action {
                PollerAction::ListWorkloads { .. } => PollerEvent::Listed { workloads: observe() },
                PollerAction::UpdateStatusRecord { update } => {
                    assert_eq!(update.repository, "octo/repo");
                    assert_eq!(update.installation_id, 42);
                    assert!(board.apply(update.update));
                    made += 1;
                    PollerEvent::Updated
                }
                PollerAction::Sleep { report } => {
                    assert_eq!(report, CycleReport::Completed { updates: made });
                    return made;
                }
            };
            let next = poller.on_event(event);
            poller = next.0;
            action = next.1;
        }
    };
    assert_eq!(cycle(&mut board), 2);
    let expected = vec![
        StatusState::Completed { conclusion: Conclusion::Success },
        StatusState::Queued,
        StatusState::Completed { conclusion: Conclusion::Failure },
    ];
    let states_of =
        |b: &StatusBoard| b.records.iter().map(|r| r.state).collect::<Vec<StatusState>>();
    assert_eq!(states_of(&board), expected);
    assert_eq!(cycle(&mut board), 2);
    assert_eq!(states_of(&board), expected);
    assert_eq!(board.len(), 3);
}
