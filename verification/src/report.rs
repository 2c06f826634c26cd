//! What the sender of an event is told about the run it set off: a status
//! code and a body.
//!
//! A run that had nothing to do and a run whose workload was there already
//! are acknowledged like one that was dispatched. Only a failed run is
//! reported as an internal failure, with the error in words as the body.

use vstd::prelude::*;
use crate::pipeline::{CompileError, CompileErrorView};
use crate::run::{RunError, RunErrorView, RunOutcome, RunOutcomeView};
use crate::text::{decimal, push_decimal};

verus! {

/// The status code of an acknowledgment without complaint.
pub const STATUS_OK: u16 = 200;

/// The status code of an acknowledgment that reports a failed run.
pub const STATUS_INTERNAL_ERROR: u16 = 500;

/// The answer to the sender of an event.
#[derive(Debug, PartialEq, Eq)]
pub struct Acknowledgment {
    pub status: u16,
    pub body: String,
}

/// The mathematical value of an [`Acknowledgment`].
pub struct AcknowledgmentView {
    pub status: u16,
    pub body: Seq<char>,
}

impl View for Acknowledgment {
    type V = AcknowledgmentView;

    open spec fn view(&self) -> AcknowledgmentView {
        AcknowledgmentView { status: self.status, body: self.body@ }
    }
}

/// A defect of a pipeline document, in words.
pub open spec fn defect_message(defect: CompileErrorView) -> Seq<char> {
    match defect {
        CompileErrorView::MalformedPipeline { commit, line } => "malformed pipeline at commit "@
            + commit + ", line "@ + decimal(line),
        CompileErrorView::DuplicateStepName { commit, name } => "duplicate step name at commit "@
            + commit + ": "@ + name,
    }
}

/// The error of a run, in words.
pub open spec fn error_message(error: RunErrorView) -> Seq<char> {
    match error {
        RunErrorView::ConfigurationError { what } => "configuration error: "@ + what,
        RunErrorView::AuthenticationFailure { cause } => "authentication failure: "@ + cause,
        RunErrorView::PipelineFetchFailed { cause } => "pipeline fetch failed: "@ + cause,
        RunErrorView::InvalidPipeline { defect } => defect_message(defect),
        RunErrorView::StatusRecordCreationFailed {
            step_name,
            cause,
        } => "status record creation failed for step "@ + step_name + ": "@ + cause,
        RunErrorView::WorkloadDispatchFailed { cause } => "workload dispatch failed: "@ + cause,
        RunErrorView::UnexpectedEvent => "unexpected event"@,
    }
}

/// The acknowledgment of a run that ended with `outcome`.
pub open spec fn acknowledgment_of(outcome: RunOutcomeView) -> AcknowledgmentView {
    match outcome {
        RunOutcomeView::Failed { error } => AcknowledgmentView {
            status: STATUS_INTERNAL_ERROR,
            body: error_message(error),
        },
        _ => AcknowledgmentView { status: STATUS_OK, body: Seq::empty() },
    }
}

/// A run is reported as failed exactly where it failed; a conflict on the
/// workload's name is not a failure.
pub proof fn lemma_only_failures_are_reported(outcome: RunOutcomeView)
    ensures
        acknowledgment_of(outcome).status == STATUS_INTERNAL_ERROR <==> outcome is Failed,
        acknowledgment_of(outcome).status == STATUS_OK <==> !(outcome is Failed),
        acknowledgment_of(RunOutcomeView::AlreadyDispatched) == acknowledgment_of(
            RunOutcomeView::Dispatched,
        ),
{
}

/// A defect of a pipeline document, in words.
pub fn describe_defect(defect: &CompileError) -> (out: String)
    ensures
        out@ == defect_message(defect@),
{
    match defect {
        CompileError::MalformedPipeline { commit, line } => {
            let mut out = "malformed pipeline at commit ".to_owned();
            out.append(commit.as_str());
            out.append(", line ");
            push_decimal(&mut out, *line as u64);
            out
        },
        CompileError::DuplicateStepName { commit, name } => {
            let mut out = "duplicate step name at commit ".to_owned();
            out.append(commit.as_str());
            out.append(": ");
            out.append(name.as_str());
            out
        },
    }
}

/// The error of a run, in words.
pub fn describe_error(error: &RunError) -> (out: String)
    ensures
        out@ == error_message(error@),
{
    match error {
        RunError::ConfigurationError { what } => {
            let mut out = "configuration error: ".to_owned();
            out.append(what.as_str());
            out
        },
        RunError::AuthenticationFailure { cause } => {
            let mut out = "authentication failure: ".to_owned();
            out.append(cause.as_str());
            out
        },
        RunError::PipelineFetchFailed { cause } => {
            let mut out = "pipeline fetch failed: ".to_owned();
            out.append(cause.as_str());
            out
        },
        RunError::InvalidPipeline { defect } => describe_defect(defect),
        RunError::StatusRecordCreationFailed { step_name, cause } => {
            let mut out = "status record creation failed for step ".to_owned();
            out.append(step_name.as_str());
            out.append(": ");
            out.append(cause.as_str());
            out
        },
        RunError::WorkloadDispatchFailed { cause } => {
            let mut out = "workload dispatch failed: ".to_owned();
            out.append(cause.as_str());
            out
        },
        RunError::UnexpectedEvent => "unexpected event".to_owned(),
    }
}

/// The acknowledgment of a run that ended with `outcome`.
pub fn acknowledge(outcome: &RunOutcome) -> (out: Acknowledgment)
    ensures
        out@ == acknowledgment_of(outcome@),
{
    match outcome {
        RunOutcome::Failed { error } => Acknowledgment {
            status: STATUS_INTERNAL_ERROR,
            body: describe_error(error),
        },
        _ => Acknowledgment { status: STATUS_OK, body: String::new() },
    }
}

} // verus!
