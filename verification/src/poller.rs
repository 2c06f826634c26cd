//! Reconciliation: what the listed workloads say about status records, and
//! the cycle that propagates it.
//!
//! The poller keeps no ledger of what it has reported. In every cycle it
//! asks for an update for every finished unit that names its status record;
//! an update that repeats is one that changes nothing (see
//! [`crate::status`]). A cycle in which a call fails ends there; the next
//! interval starts another.
//!
//! A workload whose metadata does not name its repository and installation
//! is not one of this system's and calls for no update. A unit that never
//! ends is never reported: the poller sets no deadline.

use vstd::prelude::*;
use crate::metadata::{
    annotation_views,
    annotations_of,
    distinct_unit_names,
    find_annotation,
    lemma_metadata_names_record,
    lemma_metadata_names_run,
    lookup,
    record_key,
    status_record_key,
    Annotation,
    AnnotationView,
};
use crate::status::{Conclusion, StatusUpdate};
use crate::text::{lemma_decimal_round_trip, parse_u64, u64_value};
use crate::workload::WorkloadView;

verus! {

/// The state of one executable unit as the cluster reports it.
#[derive(Debug, Clone, Copy, PartialEq, Eq, Structural)]
pub enum UnitState {
    /// The unit has not ended yet.
    Pending,
    /// The unit has ended with this exit code.
    Completed { exit_code: i32 },
}

/// One executable unit of a listed workload.
#[derive(Debug, PartialEq, Eq)]
pub struct ObservedUnit {
    pub name: String,
    /// The status record of the unit as its metadata gives it: the decimal
    /// numeral of the identifier.
    pub status_record: Option<String>,
    pub state: UnitState,
}

/// The mathematical value of an [`ObservedUnit`].
pub struct ObservedUnitView {
    pub name: Seq<char>,
    pub status_record: Option<Seq<char>>,
    pub state: UnitState,
}

impl View for ObservedUnit {
    type V = ObservedUnitView;

    open spec fn view(&self) -> ObservedUnitView {
        ObservedUnitView {
            name: self.name@,
            status_record: match self.status_record {
                Some(text) => Some(text@),
                None => None,
            },
            state: self.state,
        }
    }
}

/// The values of a sequence of observed units.
pub open spec fn observed_unit_views(v: Seq<ObservedUnit>) -> Seq<ObservedUnitView> {
    Seq::new(v.len(), |i: int| v[i]@)
}

/// One listed workload.
#[derive(Debug, PartialEq, Eq)]
pub struct ObservedWorkload {
    pub name: String,
    /// The repository of the run, where the metadata names it.
    pub repository: Option<String>,
    /// The installation of the run, where the metadata names it.
    pub installation_id: Option<u64>,
    pub units: Vec<ObservedUnit>,
}

/// The mathematical value of an [`ObservedWorkload`].
pub struct ObservedWorkloadView {
    pub name: Seq<char>,
    pub repository: Option<Seq<char>>,
    pub installation_id: Option<u64>,
    pub units: Seq<ObservedUnitView>,
}

impl View for ObservedWorkload {
    type V = ObservedWorkloadView;

    open spec fn view(&self) -> ObservedWorkloadView {
        ObservedWorkloadView {
            name: self.name@,
            repository: match self.repository {
                Some(text) => Some(text@),
                None => None,
            },
            installation_id: self.installation_id,
            units: observed_unit_views(self.units@),
        }
    }
}

/// An update together with where it goes: the repository whose status
/// record it concludes, and the installation under which the provider is
/// reached.
#[derive(Debug, PartialEq, Eq)]
pub struct AddressedUpdate {
    pub repository: String,
    pub installation_id: u64,
    pub update: StatusUpdate,
}

/// The mathematical value of an [`AddressedUpdate`].
pub struct AddressedUpdateView {
    pub repository: Seq<char>,
    pub installation_id: u64,
    pub update: StatusUpdate,
}

impl View for AddressedUpdate {
    type V = AddressedUpdateView;

    open spec fn view(&self) -> AddressedUpdateView {
        AddressedUpdateView {
            repository: self.repository@,
            installation_id: self.installation_id,
            update: self.update,
        }
    }
}

impl Clone for AddressedUpdate {
    fn clone(&self) -> (out: Self)
        ensures
            out@ == self@,
    {
        AddressedUpdate {
            repository: self.repository.clone(),
            installation_id: self.installation_id,
            update: self.update,
        }
    }
}

/// The values of a sequence of addressed updates.
pub open spec fn addressed_views(v: Seq<AddressedUpdate>) -> Seq<AddressedUpdateView> {
    Seq::new(v.len(), |i: int| v[i]@)
}

/// The values of a sequence of observed workloads.
pub open spec fn observed_workload_views(v: Seq<ObservedWorkload>) -> Seq<ObservedWorkloadView> {
    Seq::new(v.len(), |i: int| v[i]@)
}

/// The conclusion that an exit code stands for: success for zero, failure
/// for anything else.
pub open spec fn conclusion_of(exit_code: i32) -> Conclusion {
    if exit_code == 0 {
        Conclusion::Success
    } else {
        Conclusion::Failure
    }
}

/// The update that a unit calls for: none while it is pending, and none
/// where its metadata names no status record.
pub open spec fn update_of(unit: ObservedUnitView) -> Option<StatusUpdate> {
    match (unit.state, unit.status_record) {
        (UnitState::Completed { exit_code }, Some(text)) => match u64_value(text) {
            Some(id) => Some(
                StatusUpdate { status_record_id: id, conclusion: conclusion_of(exit_code) },
            ),
            None => None,
        },
        _ => None,
    }
}

/// `update_of` as a function value.
pub open spec fn update_fn() -> spec_fn(ObservedUnitView) -> Option<StatusUpdate> {
    |unit: ObservedUnitView| update_of(unit)
}

/// The updates that the units of one workload call for, in their order.
pub open spec fn unit_updates(units: Seq<ObservedUnitView>) -> Seq<StatusUpdate> {
    units.filter_map(update_fn())
}

/// `updates`, each addressed to this repository and installation.
pub open spec fn addressed(
    repository: Seq<char>,
    installation_id: u64,
    updates: Seq<StatusUpdate>,
) -> Seq<AddressedUpdateView> {
    Seq::new(
        updates.len(),
        |i: int| AddressedUpdateView { repository, installation_id, update: updates[i] },
    )
}

/// The updates that one workload calls for: those of its units, addressed
/// as its metadata says, and none where the metadata does not say.
pub open spec fn workload_updates(w: ObservedWorkloadView) -> Seq<AddressedUpdateView> {
    match (w.repository, w.installation_id) {
        (Some(repository), Some(installation_id)) => addressed(
            repository,
            installation_id,
            unit_updates(w.units),
        ),
        _ => Seq::empty(),
    }
}

/// The updates that a listing calls for: those of its workloads, one
/// workload after the other.
pub open spec fn updates_of(workloads: Seq<ObservedWorkloadView>) -> Seq<AddressedUpdateView>
    decreases workloads.len(),
{
    if workloads.len() == 0 {
        Seq::empty()
    } else {
        updates_of(workloads.drop_last()) + workload_updates(workloads.last())
    }
}

/// A unit that calls for an update has it among the updates of its
/// workload's units.
pub proof fn lemma_unit_update_is_listed(units: Seq<ObservedUnitView>, j: int)
    requires
        0 <= j < units.len(),
        update_of(units[j]) is Some,
    ensures
        unit_updates(units).contains(update_of(units[j])->0),
    decreases units.len(),
{
    let wanted = update_of(units[j])->0;
    let front = units.drop_last();
    let kept = front.filter_map(update_fn());
    let all = unit_updates(units);
    if j == units.len() - 1 {
        assert(all[kept.len() as int] == wanted);
    } else {
        lemma_unit_update_is_listed(front, j);
        let k = choose|k: int| 0 <= k < kept.len() && kept[k] == wanted;
        match update_of(units.last()) {
            Some(more) => {
                assert(all =~= kept + seq![more]);
            },
            None => {
                assert(all =~= kept);
            },
        }
        assert(all[k] == wanted);
    }
}

/// Every finished unit is reported: where a workload names its run and one
/// of its units calls for an update, the updates of the listing hold that
/// update, addressed to the run.
pub proof fn lemma_finished_unit_is_updated(workloads: Seq<ObservedWorkloadView>, i: int, j: int)
    requires
        0 <= i < workloads.len(),
        0 <= j < workloads[i].units.len(),
        workloads[i].repository is Some,
        workloads[i].installation_id is Some,
        update_of(workloads[i].units[j]) is Some,
    ensures
        updates_of(workloads).contains(
            AddressedUpdateView {
                repository: workloads[i].repository->0,
                installation_id: workloads[i].installation_id->0,
                update: update_of(workloads[i].units[j])->0,
            },
        ),
    decreases workloads.len(),
{
    let w = workloads[i];
    let wanted = AddressedUpdateView {
        repository: w.repository->0,
        installation_id: w.installation_id->0,
        update: update_of(w.units[j])->0,
    };
    let before = updates_of(workloads.drop_last());
    let all = updates_of(workloads);
    if i == workloads.len() - 1 {
        lemma_unit_update_is_listed(w.units, j);
        let plain = unit_updates(w.units);
        let k = choose|k: int| 0 <= k < plain.len() && plain[k] == update_of(w.units[j])->0;
        assert(all[before.len() + k] == wanted);
    } else {
        lemma_finished_unit_is_updated(workloads.drop_last(), i, j);
        let k = choose|k: int| 0 <= k < before.len() && before[k] == wanted;
        assert(all[k] == wanted);
    }
}

/// Nothing else is reported: every update of a listing is the update that
/// a unit of one of its workloads calls for, addressed to the run that the
/// workload names.
pub proof fn lemma_update_comes_from_finished_unit(
    workloads: Seq<ObservedWorkloadView>,
    update: AddressedUpdateView,
)
    requires
        updates_of(workloads).contains(update),
    ensures
        exists|i: int, j: int|
            0 <= i < workloads.len() && 0 <= j < workloads[i].units.len() && workloads[i].repository
                == Some(update.repository) && workloads[i].installation_id == Some(
                update.installation_id,
            ) && update_of(#[trigger] workloads[i].units[j]) == Some(update.update),
    decreases workloads.len(),
{
    let all = updates_of(workloads);
    let k = choose|k: int| 0 <= k < all.len() && all[k] == update;
    let front = workloads.drop_last();
    let before = updates_of(front);
    if k < before.len() {
        lemma_update_comes_from_finished_unit(front, update);
    } else {
        let w = workloads.last();
        w.units.lemma_filter_map_contains(update_fn(), update.update);
    }
}

/// A workload as the cluster shows it, with the repository and the
/// installation that its metadata names.
pub open spec fn observed_workload(
    name: Seq<char>,
    annotations: Seq<AnnotationView>,
    units: Seq<ObservedUnitView>,
) -> ObservedWorkloadView {
    ObservedWorkloadView {
        name,
        repository: lookup(annotations, "repository"@),
        installation_id: match lookup(annotations, "installation"@) {
            Some(text) => u64_value(text),
            None => None,
        },
        units,
    }
}

/// A generated workload is seen again with its own repository and
/// installation.
pub proof fn lemma_generated_workload_is_addressed(w: WorkloadView, units: Seq<ObservedUnitView>)
    ensures
        observed_workload(w.name, annotations_of(w), units).repository == Some(w.repository),
        observed_workload(w.name, annotations_of(w), units).installation_id == Some(
            w.installation_id,
        ),
{
    lemma_metadata_names_run(w);
    lemma_decimal_round_trip(w.installation_id as nat);
}

/// A unit as the cluster shows it: its name, its state, and the status
/// record that the metadata of its workload names for it.
pub open spec fn observed(
    name: Seq<char>,
    state: UnitState,
    annotations: Seq<AnnotationView>,
) -> ObservedUnitView {
    ObservedUnitView { name, status_record: lookup(annotations, record_key(name)), state }
}

/// A finished unit of a generated workload calls for the update of its own
/// status record, with the conclusion that its exit code stands for.
pub proof fn lemma_finished_unit_reaches_its_record(w: WorkloadView, i: int, exit_code: i32)
    requires
        distinct_unit_names(w.units),
        0 <= i < w.units.len(),
    ensures
        update_of(
            observed(w.units[i].name, UnitState::Completed { exit_code }, annotations_of(w)),
        ) == Some(
            StatusUpdate {
                status_record_id: w.units[i].status_record_id,
                conclusion: conclusion_of(exit_code),
            },
        ),
{
    lemma_metadata_names_record(w, i);
    lemma_decimal_round_trip(w.units[i].status_record_id as nat);
}

/// A unit that has not ended calls for no update.
pub proof fn lemma_pending_unit_calls_for_nothing(unit: ObservedUnitView)
    requires
        unit.state is Pending,
    ensures
        update_of(unit) is None,
{
}

/// A unit as the cluster shows it, with the status record that the metadata
/// of its workload names for it.
pub fn observe_unit(name: String, state: UnitState, annotations: &Vec<Annotation>) -> (out:
    ObservedUnit)
    ensures
        out@ == observed(name@, state, annotation_views(annotations@)),
{
    let key = status_record_key(name.as_str());
    let status_record = find_annotation(annotations, &key);
    ObservedUnit { name, status_record, state }
}

/// The conclusion that an exit code stands for.
pub fn conclude(exit_code: i32) -> (out: Conclusion)
    ensures
        out == conclusion_of(exit_code),
{
    if exit_code == 0 {
        Conclusion::Success
    } else {
        Conclusion::Failure
    }
}

/// The update that a unit calls for.
pub fn unit_update(unit: &ObservedUnit) -> (out: Option<StatusUpdate>)
    ensures
        out == update_of(unit@),
{
    match unit.state {
        UnitState::Pending => None,
        UnitState::Completed { exit_code } => match &unit.status_record {
            None => None,
            Some(text) => match parse_u64(text.as_str()) {
                Some(id) => Some(
                    StatusUpdate { status_record_id: id, conclusion: conclude(exit_code) },
                ),
                None => None,
            },
        },
    }
}

/// The updates that the units of one workload call for, in their order.
pub fn units_updates(units: &Vec<ObservedUnit>) -> (out: Vec<StatusUpdate>)
    ensures
        out@ == unit_updates(observed_unit_views(units@)),
{
    let ghost seen = observed_unit_views(units@);
    let mut out: Vec<StatusUpdate> = Vec::new();
    let mut j: usize = 0;
    while j < units.len()
        invariant
            j <= units@.len(),
            seen == observed_unit_views(units@),
            out@ == unit_updates(seen.take(j as int)),
        decreases units@.len() - j,
    {
        proof {
            seen.lemma_filter_map_take_succ(update_fn(), j as int);
        }
        match unit_update(&units[j]) {
            Some(update) => {
                out.push(update);
            },
            None => {
                assert(out@ =~= unit_updates(seen.take(j + 1)));
            },
        }
        j = j + 1;
    }
    assert(seen.take(j as int) =~= seen);
    out
}

/// Appends the updates that one workload calls for.
pub fn push_workload_updates(out: &mut Vec<AddressedUpdate>, w: &ObservedWorkload)
    ensures
        addressed_views(final(out)@) == addressed_views(old(out)@) + workload_updates(w@),
{
    let ghost before = addressed_views(out@);
    match (&w.repository, w.installation_id) {
        (Some(repository), Some(installation_id)) => {
            let updates = units_updates(&w.units);
            let ghost wanted = addressed(repository@, installation_id, updates@);
            let mut i: usize = 0;
            while i < updates.len()
                invariant
                    i <= updates@.len(),
                    wanted == addressed(repository@, installation_id, updates@),
                    addressed_views(out@) == before + wanted.take(i as int),
                decreases updates@.len() - i,
            {
                let entry = AddressedUpdate {
                    repository: repository.clone(),
                    installation_id,
                    update: updates[i],
                };
                proof {
                    assert(addressed_views(out@.push(entry)) =~= addressed_views(out@).push(
                        entry@,
                    ));
                    assert((before + wanted.take(i as int)).push(wanted[i as int]) =~= before
                        + wanted.take(i + 1));
                }
                out.push(entry);
                i = i + 1;
            }
        },
        _ => {
            assert(addressed_views(out@) =~= before + workload_updates(w@));
        },
    }
}

/// The updates that a listing calls for.
pub fn pending_updates(workloads: &Vec<ObservedWorkload>) -> (out: Vec<AddressedUpdate>)
    ensures
        addressed_views(out@) == updates_of(observed_workload_views(workloads@)),
{
    let ghost listed = observed_workload_views(workloads@);
    let mut out: Vec<AddressedUpdate> = Vec::new();
    let mut i: usize = 0;
    while i < workloads.len()
        invariant
            i <= workloads@.len(),
            listed == observed_workload_views(workloads@),
            addressed_views(out@) == updates_of(listed.take(i as int)),
        decreases workloads@.len() - i,
    {
        proof {
            assert(listed.take(i + 1).drop_last() =~= listed.take(i as int));
        }
        push_workload_updates(&mut out, &workloads[i]);
        i = i + 1;
    }
    assert(listed.take(i as int) =~= listed);
    out
}

/// A workload as the cluster shows it, with the repository and the
/// installation that its metadata names.
pub fn observe_workload(name: String, annotations: &Vec<Annotation>, units: Vec<ObservedUnit>) -> (out:
    ObservedWorkload)
    ensures
        out@ == observed_workload(
            name@,
            annotation_views(annotations@),
            observed_unit_views(units@),
        ),
{
    let repository = find_annotation(annotations, &"repository".to_owned());
    let installation_id = match find_annotation(annotations, &"installation".to_owned()) {
        Some(text) => parse_u64(text.as_str()),
        None => None,
    };
    ObservedWorkload { name, repository, installation_id, units }
}

/// Why a cycle of the poller failed.
#[derive(Debug, PartialEq, Eq)]
pub enum ReconciliationCycleFailed {
    /// The workloads could not be listed.
    Listing { cause: String },
    /// This status record could not be updated.
    Update { status_record_id: u64, cause: String },
    /// An event arrived that answers no action of the cycle.
    UnexpectedEvent,
}

/// The mathematical value of a [`ReconciliationCycleFailed`].
pub enum ReconciliationCycleFailedView {
    Listing { cause: Seq<char> },
    Update { status_record_id: u64, cause: Seq<char> },
    UnexpectedEvent,
}

impl View for ReconciliationCycleFailed {
    type V = ReconciliationCycleFailedView;

    open spec fn view(&self) -> ReconciliationCycleFailedView {
        match self {
            ReconciliationCycleFailed::Listing { cause } => ReconciliationCycleFailedView::Listing {
                cause: cause@,
            },
            ReconciliationCycleFailed::Update {
                status_record_id,
                cause,
            } => ReconciliationCycleFailedView::Update {
                status_record_id: *status_record_id,
                cause: cause@,
            },
            ReconciliationCycleFailed::UnexpectedEvent => ReconciliationCycleFailedView::UnexpectedEvent,
        }
    }
}

/// How a cycle ended. It is for the log: a failed cycle stops nothing.
#[derive(Debug, PartialEq, Eq)]
pub enum CycleReport {
    /// Every update that the listing called for was made.
    Completed { updates: usize },
    Failed { error: ReconciliationCycleFailed },
}

/// The mathematical value of a [`CycleReport`].
pub enum CycleReportView {
    Completed { updates: nat },
    Failed { error: ReconciliationCycleFailedView },
}

impl View for CycleReport {
    type V = CycleReportView;

    open spec fn view(&self) -> CycleReportView {
        match self {
            CycleReport::Completed { updates } => CycleReportView::Completed {
                updates: *updates as nat,
            },
            CycleReport::Failed { error } => CycleReportView::Failed { error: error@ },
        }
    }
}

/// What the caller reports to the poller.
#[derive(Debug, PartialEq, Eq)]
pub enum PollerEvent {
    /// The interval is over.
    Tick,
    /// The workloads of the namespace.
    Listed { workloads: Vec<ObservedWorkload> },
    /// The workloads could not be listed.
    ListFailed { cause: String },
    /// The status record was updated.
    Updated,
    /// The status record could not be updated.
    UpdateFailed { cause: String },
}

/// The mathematical value of a [`PollerEvent`].
pub enum PollerEventView {
    Tick,
    Listed { workloads: Seq<ObservedWorkloadView> },
    ListFailed { cause: Seq<char> },
    Updated,
    UpdateFailed { cause: Seq<char> },
}

impl View for PollerEvent {
    type V = PollerEventView;

    open spec fn view(&self) -> PollerEventView {
        match self {
            PollerEvent::Tick => PollerEventView::Tick,
            PollerEvent::Listed { workloads } => PollerEventView::Listed {
                workloads: observed_workload_views(workloads@),
            },
            PollerEvent::ListFailed { cause } => PollerEventView::ListFailed { cause: cause@ },
            PollerEvent::Updated => PollerEventView::Updated,
            PollerEvent::UpdateFailed { cause } => PollerEventView::UpdateFailed { cause: cause@ },
        }
    }
}

/// What the caller is to do next for the poller.
#[derive(Debug, PartialEq, Eq)]
pub enum PollerAction {
    /// List the workloads of the namespace.
    ListWorkloads { namespace: String },
    /// Conclude the status record as the update says.
    UpdateStatusRecord { update: AddressedUpdate },
    /// Log the report and wait for the interval to pass.
    Sleep { report: CycleReport },
}

/// The mathematical value of a [`PollerAction`].
pub enum PollerActionView {
    ListWorkloads { namespace: Seq<char> },
    UpdateStatusRecord { update: AddressedUpdateView },
    Sleep { report: CycleReportView },
}

impl View for PollerAction {
    type V = PollerActionView;

    open spec fn view(&self) -> PollerActionView {
        match self {
            PollerAction::ListWorkloads { namespace } => PollerActionView::ListWorkloads {
                namespace: namespace@,
            },
            PollerAction::UpdateStatusRecord { update } => PollerActionView::UpdateStatusRecord {
                update: update@,
            },
            PollerAction::Sleep { report } => PollerActionView::Sleep { report: report@ },
        }
    }
}

/// Where the poller stands.
#[derive(Debug, PartialEq, Eq)]
pub enum PollerPhase {
    /// Between two cycles.
    Idle,
    /// The listing was asked for.
    Listing,
    /// The update `updates[done]` was asked for; those before it were made.
    Updating { updates: Vec<AddressedUpdate>, done: usize },
}

/// The mathematical value of a [`PollerPhase`].
pub enum PollerPhaseView {
    Idle,
    Listing,
    Updating { updates: Seq<AddressedUpdateView>, done: nat },
}

impl View for PollerPhase {
    type V = PollerPhaseView;

    open spec fn view(&self) -> PollerPhaseView {
        match self {
            PollerPhase::Idle => PollerPhaseView::Idle,
            PollerPhase::Listing => PollerPhaseView::Listing,
            PollerPhase::Updating { updates, done } => PollerPhaseView::Updating {
                updates: addressed_views(updates@),
                done: *done as nat,
            },
        }
    }
}

/// The poller of one namespace.
#[derive(Debug, PartialEq, Eq)]
pub struct Poller {
    pub namespace: String,
    pub phase: PollerPhase,
}

/// The mathematical value of a [`Poller`].
pub struct PollerView {
    pub namespace: Seq<char>,
    pub phase: PollerPhaseView,
}

impl View for Poller {
    type V = PollerView;

    open spec fn view(&self) -> PollerView {
        PollerView { namespace: self.namespace@, phase: self.phase@ }
    }
}

impl PollerView {
    /// While updates are being made, the one asked for is one of them.
    pub open spec fn wf(self) -> bool {
        match self.phase {
            PollerPhaseView::Updating { updates, done } => done < updates.len(),
            _ => true,
        }
    }

    /// This poller between two cycles, with the report of the last one.
    pub open spec fn sleep(self, report: CycleReportView) -> (PollerView, PollerActionView) {
        (PollerView { phase: PollerPhaseView::Idle, ..self }, PollerActionView::Sleep { report })
    }

    /// This poller after a failed cycle.
    pub open spec fn fail(self, error: ReconciliationCycleFailedView) -> (
        PollerView,
        PollerActionView,
    ) {
        self.sleep(CycleReportView::Failed { error })
    }
}

/// The poller after an event, and the next action.
pub open spec fn poller_transition(poller: PollerView, event: PollerEventView) -> (
    PollerView,
    PollerActionView,
) {
    match (poller.phase, event) {
        (PollerPhaseView::Idle, PollerEventView::Tick) => (
            PollerView { phase: PollerPhaseView::Listing, ..poller },
            PollerActionView::ListWorkloads { namespace: poller.namespace },
        ),
        (PollerPhaseView::Listing, PollerEventView::Listed { workloads }) => {
            let updates = updates_of(workloads);
            if updates.len() == 0 {
                poller.sleep(CycleReportView::Completed { updates: 0 })
            } else {
                (
                    PollerView { phase: PollerPhaseView::Updating { updates, done: 0 }, ..poller },
                    PollerActionView::UpdateStatusRecord { update: updates[0] },
                )
            }
        },
        (PollerPhaseView::Listing, PollerEventView::ListFailed { cause }) => poller.fail(
            ReconciliationCycleFailedView::Listing { cause },
        ),
        (PollerPhaseView::Updating { updates, done }, PollerEventView::Updated) => {
            if done + 1 < updates.len() {
                (
                    PollerView {
                        phase: PollerPhaseView::Updating { updates, done: done + 1 },
                        ..poller
                    },
                    PollerActionView::UpdateStatusRecord { update: updates[done as int + 1] },
                )
            } else {
                poller.sleep(CycleReportView::Completed { updates: updates.len() })
            }
        },
        (
            PollerPhaseView::Updating { updates, done },
            PollerEventView::UpdateFailed { cause },
        ) => poller.fail(
            ReconciliationCycleFailedView::Update {
                status_record_id: updates[done as int].update.status_record_id,
                cause,
            },
        ),
        _ => poller.fail(ReconciliationCycleFailedView::UnexpectedEvent),
    }
}

/// Whatever happens, the poller goes on: an event either leads to more work
/// in the cycle or to a sleep between cycles, and after a sleep the next tick
/// starts a cycle with a listing.
pub proof fn lemma_poller_goes_on(poller: PollerView, event: PollerEventView)
    requires
        poller.wf(),
    ensures
        ({
            let (next, action) = poller_transition(poller, event);
            &&& next.wf()
            &&& next.namespace == poller.namespace
            &&& action is Sleep <==> next.phase is Idle
            &&& next.phase is Idle ==> poller_transition(next, PollerEventView::Tick).1
                == (PollerActionView::ListWorkloads { namespace: poller.namespace })
        }),
{
}

/// A call that fails ends the cycle with a report and nothing else.
pub proof fn lemma_failed_call_ends_cycle(poller: PollerView, event: PollerEventView)
    requires
        poller.wf(),
        event is ListFailed || event is UpdateFailed,
    ensures
        poller_transition(poller, event).0.phase is Idle,
        poller_transition(poller, event).1 is Sleep,
        poller_transition(poller, event).1->report is Failed,
{
}

impl Poller {
    /// A poller is well formed where its value is.
    pub open spec fn wf(&self) -> bool {
        self@.wf()
    }

    /// The poller of `namespace`, between two cycles.
    pub fn new(namespace: String) -> (out: Poller)
        ensures
            out.wf(),
            out@ == (PollerView { namespace: namespace@, phase: PollerPhaseView::Idle }),
    {
        Poller { namespace, phase: PollerPhase::Idle }
    }

    fn sleep(namespace: String, report: CycleReport) -> (out: (Poller, PollerAction))
        ensures
            out.0.wf(),
            out.0@ == (PollerView { namespace: namespace@, phase: PollerPhaseView::Idle }),
            out.1@ == (PollerActionView::Sleep { report: report@ }),
    {
        (Poller { namespace, phase: PollerPhase::Idle }, PollerAction::Sleep { report })
    }

    /// Takes what came of the last action and names the next one.
    pub fn on_event(self, event: PollerEvent) -> (out: (Poller, PollerAction))
        requires
            self.wf(),
        ensures
            out.0.wf(),
            (out.0@, out.1@) == poller_transition(self@, event@),
    {
        let Poller { namespace, phase } = self;
        match (phase, event) {
            (PollerPhase::Idle, PollerEvent::Tick) => {
                let action = PollerAction::ListWorkloads { namespace: namespace.clone() };
                (Poller { namespace, phase: PollerPhase::Listing }, action)
            },
            (PollerPhase::Listing, PollerEvent::Listed { workloads }) => {
                let updates = pending_updates(&workloads);
                if updates.len() == 0 {
                    Poller::sleep(namespace, CycleReport::Completed { updates: 0 })
                } else {
                    let action = PollerAction::UpdateStatusRecord { update: updates[0].clone() };
                    (Poller { namespace, phase: PollerPhase::Updating { updates, done: 0 } }, action)
                }
            },
            (PollerPhase::Listing, PollerEvent::ListFailed { cause }) => Poller::sleep(
                namespace,
                CycleReport::Failed { error: ReconciliationCycleFailed::Listing { cause } },
            ),
            (PollerPhase::Updating { updates, done }, PollerEvent::Updated) => {
                let total: usize = updates.len();
                if done + 1 < total {
                    let action = PollerAction::UpdateStatusRecord {
                        update: updates[done + 1].clone(),
                    };
                    (
                        Poller {
                            namespace,
                            phase: PollerPhase::Updating { updates, done: done + 1 },
                        },
                        action,
                    )
                } else {
                    Poller::sleep(namespace, CycleReport::Completed { updates: total })
                }
            },
            (PollerPhase::Updating { updates, done }, PollerEvent::UpdateFailed { cause }) => {
                let status_record_id = updates[done].update.status_record_id;
                Poller::sleep(
                    namespace,
                    CycleReport::Failed {
                        error: ReconciliationCycleFailed::Update { status_record_id, cause },
                    },
                )
            },
            _ => Poller::sleep(
                namespace,
                CycleReport::Failed { error: ReconciliationCycleFailed::UnexpectedEvent },
            ),
        }
    }
}

/// The poller after a sequence of events.
pub open spec fn poller_after(poller: PollerView, events: Seq<PollerEventView>) -> PollerView
    decreases events.len(),
{
    if events.len() == 0 {
        poller
    } else {
        poller_transition(poller_after(poller, events.drop_last()), events.last()).0
    }
}

/// The action with which the poller answers the event `events[i]`, after
/// the events before it.
pub open spec fn poller_action_at(
    poller: PollerView,
    events: Seq<PollerEventView>,
    i: int,
) -> PollerActionView
    recommends
        0 <= i < events.len(),
{
    poller_transition(poller_after(poller, events.take(i)), events[i]).1
}

/// The events of a cycle in which every call succeeds: the tick, the listing,
/// and `made` updates.
pub open spec fn events_of_cycle(
    workloads: Seq<ObservedWorkloadView>,
    made: nat,
) -> Seq<PollerEventView> {
    seq![PollerEventView::Tick, PollerEventView::Listed { workloads }] + Seq::new(
        made,
        |i: int| PollerEventView::Updated,
    )
}

/// In a cycle in which every call succeeds, the poller after the listing and
/// `k` updates has `k` updates behind it.
proof fn lemma_cycle_prefix(poller: PollerView, workloads: Seq<ObservedWorkloadView>, k: int)
    requires
        poller.phase is Idle,
        0 <= k < updates_of(workloads).len(),
    ensures
        poller_after(
            poller,
            events_of_cycle(workloads, updates_of(workloads).len()).take(k + 2),
        ) == (PollerView {
            phase: PollerPhaseView::Updating { updates: updates_of(workloads), done: k as nat },
            ..poller
        }),
    decreases k,
{
    let updates = updates_of(workloads);
    let events = events_of_cycle(workloads, updates.len());
    assert(events.take(k + 2).drop_last() =~= events.take(k + 1));
    if k == 0 {
        assert(events.take(1).drop_last() =~= Seq::<PollerEventView>::empty());
        assert(poller_after(poller, Seq::<PollerEventView>::empty()) == poller);
        assert(poller_after(poller, events.take(1)) == (PollerView {
            phase: PollerPhaseView::Listing,
            ..poller
        }));
    } else {
        lemma_cycle_prefix(poller, workloads, k - 1);
    }
}

/// In a cycle in which every call succeeds, the poller lists the workloads,
/// asks for every update that the listing calls for, each once and in order,
/// and then sleeps.
pub proof fn lemma_cycle_makes_every_update(
    poller: PollerView,
    workloads: Seq<ObservedWorkloadView>,
)
    requires
        poller.phase is Idle,
    ensures
        ({
            let updates = updates_of(workloads);
            let events = events_of_cycle(workloads, updates.len());
            &&& poller_action_at(poller, events, 0) == (PollerActionView::ListWorkloads {
                namespace: poller.namespace,
            })
            &&& forall|i: int|
                0 <= i < updates.len() ==> #[trigger] poller_action_at(poller, events, i + 1)
                    == (PollerActionView::UpdateStatusRecord { update: updates[i] })
            &&& poller_action_at(poller, events, updates.len() as int + 1) == (PollerActionView::Sleep {
                report: CycleReportView::Completed { updates: updates.len() },
            })
            &&& poller_after(poller, events) == poller
        }),
{
    let updates = updates_of(workloads);
    let n = updates.len() as int;
    let events = events_of_cycle(workloads, updates.len());
    assert(events.take(1).drop_last() =~= events.take(0));
    if n > 0 {
        assert forall|i: int| 0 <= i < n implies #[trigger] poller_action_at(poller, events, i + 1)
            == (PollerActionView::UpdateStatusRecord { update: updates[i] }) by {
            if i > 0 {
                lemma_cycle_prefix(poller, workloads, i - 1);
            }
        }
        lemma_cycle_prefix(poller, workloads, n - 1);
    }
}

} // verus!
