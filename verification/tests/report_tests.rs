use ci_orchestrator::pipeline::CompileError;
use ci_orchestrator::report::{
    acknowledge, describe_defect, describe_error, Acknowledgment, STATUS_INTERNAL_ERROR, STATUS_OK,
};
use ci_orchestrator::run::{NoWorkReason, RunError, RunOutcome};

#[test]
fn status_codes() {
    assert_eq!(STATUS_OK, 200);
    assert_eq!(STATUS_INTERNAL_ERROR, 500);
}

#[test]
fn runs_that_did_not_fail_are_acknowledged_without_body() {
    let ok = Acknowledgment { status: 200, body: String::new() };
    assert_eq!(acknowledge(&RunOutcome::Dispatched), ok);
    assert_eq!(acknowledge(&RunOutcome::AlreadyDispatched), ok);
    for reason in [
        NoWorkReason::NotRequested,
        NoWorkReason::PipelineAbsent,
        NoWorkReason::EmptyPipeline,
        NoWorkReason::NoApplicableSteps,
    ] {
        assert_eq!(acknowledge(&RunOutcome::NoWork { reason }), ok);
    }
}

#[test]
fn failed_run_is_an_internal_error_with_the_error_in_words() {
    let outcome = RunOutcome::Failed {
        error: RunError::WorkloadDispatchFailed { cause: "quota exceeded".to_string() },
    };
    assert_eq!(
        acknowledge(&outcome),
        Acknowledgment {
            status: 500,
            body: "workload dispatch failed: quota exceeded".to_string()
        }
    );
}

#[test]
fn every_error_in_words() {
    let s = |x: &str| x.to_string();
    assert_eq!(
        describe_error(&RunError::ConfigurationError { what: s("APPLICATION_ID") }),
        "configuration error: APPLICATION_ID"
    );
    assert_eq!(
        describe_error(&RunError::AuthenticationFailure { cause: s("expired") }),
        "authentication failure: expired"
    );
    assert_eq!(
        describe_error(&RunError::PipelineFetchFailed { cause: s("timeout") }),
        "pipeline fetch failed: timeout"
    );
    assert_eq!(
        describe_error(&RunError::InvalidPipeline {
            defect: CompileError::MalformedPipeline { commit: s("abc123"), line: 12 }
        }),
        "malformed pipeline at commit abc123, line 12"
    );
    assert_eq!(
        describe_error(&RunError::InvalidPipeline {
            defect: CompileError::DuplicateStepName { commit: s("abc123"), name: s("lint") }
        }),
        "duplicate step name at commit abc123: lint"
    );
    assert_eq!(
        describe_error(&RunError::StatusRecordCreationFailed {
            step_name: s("test"),
            cause: s("provider is down")
        }),
        "status record creation failed for step test: provider is down"
    );
    assert_eq!(
        describe_error(&RunError::WorkloadDispatchFailed { cause: s("") }),
        "workload dispatch failed: "
    );
    assert_eq!(describe_error(&RunError::UnexpectedEvent), "unexpected event");
}

#[test]
fn defects_in_words() {
    assert_eq!(
        describe_defect(&CompileError::MalformedPipeline { commit: "c0ffee".to_string(), line: 1 }),
        "malformed pipeline at commit c0ffee, line 1"
    );
    assert_eq!(
        describe_defect(&CompileError::DuplicateStepName {
            commit: "".to_string(),
            name: "x y".to_string()
        }),
        "duplicate step name at commit : x y"
    );
}
