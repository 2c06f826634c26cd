//! A minimal continuous-integration orchestrator: it turns a pipeline
//! definition and a branch into an ordered plan, binds each planned step to a
//! status record, renders the bound plan as one cluster workload, and
//! reconciles finished workloads back into status updates.
//!
//! The library decides and computes; it calls nothing outside. Its caller
//! fetches, creates, submits and lists, and reports what came of it.
//!
//! - [`pipeline`] compiles a pipeline document into steps.
//! - [`selector`] says which branches a step runs on.
//! - [`plan`] selects the steps of a branch and binds them to status records.
//! - [`workload`] generates the workload of a bound plan, [`metadata`] what
//!   it carries for reconciliation.
//! - [`run`] is the run of one event as a state machine, [`trace`] what
//!   holds of every run, [`report`] what the sender of the event is told.
//! - [`poller`] is the reconciliation cycle, [`status`] the status records
//!   that it concludes.
//! - [`text`] holds the text helpers that the others share.

pub mod metadata;
pub mod pipeline;
pub mod plan;
pub mod poller;
pub mod report;
pub mod run;
pub mod selector;
pub mod status;
pub mod text;
pub mod trace;
pub mod workload;
