//! Status records: the pass/fail indicator that the source-control provider
//! keeps for one step of one commit.
//!
//! A record is created in the state `Queued`. The only change this system
//! makes to it afterwards is to conclude it.
//!
//! There is one record per commit and step name. A run asks for the record
//! of a step by commit and name, and that request is to be met as "find or
//! create": a second request for the same commit and step finds the record
//! of the first. [`StatusBoard`] is a provider that keeps this rule.

use vstd::prelude::*;

verus! {

/// How a step ended.
#[derive(Debug, Clone, Copy, PartialEq, Eq, Structural)]
pub enum Conclusion {
    Success,
    Failure,
}

/// The state of a status record.
#[derive(Debug, Clone, Copy, PartialEq, Eq, Structural)]
pub enum StatusState {
    Queued,
    InProgress,
    Completed { conclusion: Conclusion },
}

/// The change that reconciliation asks for: conclude this record so.
#[derive(Debug, Clone, Copy, PartialEq, Eq, Structural)]
pub struct StatusUpdate {
    pub status_record_id: u64,
    pub conclusion: Conclusion,
}

/// A status record as the provider keeps it.
#[derive(Debug, PartialEq, Eq)]
pub struct StatusRecord {
    pub id: u64,
    pub commit: String,
    pub step_name: String,
    pub state: StatusState,
}

/// The mathematical value of a [`StatusRecord`].
pub struct StatusRecordView {
    pub id: u64,
    pub commit: Seq<char>,
    pub step_name: Seq<char>,
    pub state: StatusState,
}

impl View for StatusRecord {
    type V = StatusRecordView;

    open spec fn view(&self) -> StatusRecordView {
        StatusRecordView {
            id: self.id,
            commit: self.commit@,
            step_name: self.step_name@,
            state: self.state,
        }
    }
}

/// The record after an update: concluded where the update is for it,
/// unchanged where it is for another record.
pub open spec fn apply_update(record: StatusRecordView, update: StatusUpdate) -> StatusRecordView {
    if update.status_record_id == record.id {
        StatusRecordView {
            state: StatusState::Completed { conclusion: update.conclusion },
            ..record
        }
    } else {
        record
    }
}

/// The record after a sequence of updates, applied in order.
pub open spec fn apply_updates(record: StatusRecordView, updates: Seq<StatusUpdate>) -> StatusRecordView
    decreases updates.len(),
{
    if updates.len() == 0 {
        record
    } else {
        apply_update(apply_updates(record, updates.drop_last()), updates.last())
    }
}

/// The conclusion of the last of `updates` that is for the record `id`.
pub open spec fn last_conclusion(id: u64, updates: Seq<StatusUpdate>) -> Option<Conclusion>
    decreases updates.len(),
{
    if updates.len() == 0 {
        None
    } else if updates.last().status_record_id == id {
        Some(updates.last().conclusion)
    } else {
        last_conclusion(id, updates.drop_last())
    }
}

/// An update that is applied a second time changes nothing.
pub proof fn lemma_update_idempotent(record: StatusRecordView, update: StatusUpdate)
    ensures
        apply_update(apply_update(record, update), update) == apply_update(record, update),
{
}

/// A record that is concluded already stays as it is under an update with
/// the same conclusion.
pub proof fn lemma_same_conclusion_changes_nothing(record: StatusRecordView, update: StatusUpdate)
    requires
        record.state == (StatusState::Completed { conclusion: update.conclusion }),
    ensures
        apply_update(record, update) == record,
{
}

/// After a sequence of updates a record has the conclusion of the last one
/// that was for it, and is unchanged where none was.
pub proof fn lemma_last_update_decides(record: StatusRecordView, updates: Seq<StatusUpdate>)
    ensures
        apply_updates(record, updates) == match last_conclusion(record.id, updates) {
            Some(conclusion) => StatusRecordView {
                state: StatusState::Completed { conclusion },
                ..record
            },
            None => record,
        },
    decreases updates.len(),
{
    if updates.len() > 0 {
        lemma_last_update_decides(record, updates.drop_last());
    }
}

/// A whole sequence of updates that is applied a second time changes
/// nothing: reconciliation may repeat a cycle.
pub proof fn lemma_updates_idempotent(record: StatusRecordView, updates: Seq<StatusUpdate>)
    ensures
        apply_updates(apply_updates(record, updates), updates) == apply_updates(record, updates),
{
    lemma_last_update_decides(record, updates);
    lemma_last_update_decides(apply_updates(record, updates), updates);
}

impl StatusRecord {
    /// The record that the provider creates for a step of a commit.
    pub fn create(id: u64, commit: &str, step_name: &str) -> (out: StatusRecord)
        ensures
            out@ == (StatusRecordView {
                id,
                commit: commit@,
                step_name: step_name@,
                state: StatusState::Queued,
            }),
    {
        StatusRecord {
            id,
            commit: commit.to_owned(),
            step_name: step_name.to_owned(),
            state: StatusState::Queued,
        }
    }

    /// Applies an update to the record.
    pub fn apply(&mut self, update: StatusUpdate)
        ensures
            final(self)@ == apply_update(old(self)@, update),
    {
        if update.status_record_id == self.id {
            self.state = StatusState::Completed { conclusion: update.conclusion };
        }
    }

    /// Whether the record is concluded.
    pub fn is_completed(&self) -> (done: bool)
        ensures
            done == (self@.state is Completed),
    {
        match self.state {
            StatusState::Completed { .. } => true,
            _ => false,
        }
    }
}

/// The values of a sequence of records.
pub open spec fn record_views(v: Seq<StatusRecord>) -> Seq<StatusRecordView> {
    Seq::new(v.len(), |i: int| v[i]@)
}

/// Whether a record is the one of this step of this commit.
pub open spec fn is_record_of(
    record: StatusRecordView,
    commit: Seq<char>,
    step_name: Seq<char>,
) -> bool {
    record.commit == commit && record.step_name == step_name
}

/// The identifier of the first record of this step of this commit.
pub open spec fn find_record(
    records: Seq<StatusRecordView>,
    commit: Seq<char>,
    step_name: Seq<char>,
) -> Option<u64>
    decreases records.len(),
{
    if records.len() == 0 {
        None
    } else if is_record_of(records[0], commit, step_name) {
        Some(records[0].id)
    } else {
        find_record(records.drop_first(), commit, step_name)
    }
}

/// The records of a board are numbered in the order of their creation, and
/// no two of them are for the same step of the same commit.
pub open spec fn board_wf(records: Seq<StatusRecordView>) -> bool {
    &&& forall|i: int| 0 <= i < records.len() ==> (#[trigger] records[i]).id == i
    &&& forall|i: int, j: int|
        0 <= i < j < records.len() ==> !is_record_of(
            #[trigger] records[i],
            (#[trigger] records[j]).commit,
            records[j].step_name,
        )
}

/// Where no record is found, none is for this step of this commit; where one
/// is found, it is one of the records and for this step of this commit.
pub proof fn lemma_find_record(
    records: Seq<StatusRecordView>,
    commit: Seq<char>,
    step_name: Seq<char>,
)
    ensures
        find_record(records, commit, step_name) is None ==> forall|i: int|
            0 <= i < records.len() ==> !is_record_of(#[trigger] records[i], commit, step_name),
        find_record(records, commit, step_name) is Some ==> exists|i: int|
            0 <= i < records.len() && is_record_of(#[trigger] records[i], commit, step_name)
                && records[i].id == find_record(records, commit, step_name)->0,
    decreases records.len(),
{
    if records.len() > 0 {
        let rest = records.drop_first();
        lemma_find_record(rest, commit, step_name);
        if find_record(records, commit, step_name) is None {
            assert forall|i: int| 0 <= i < records.len() implies !is_record_of(
                #[trigger] records[i],
                commit,
                step_name,
            ) by {
                if i > 0 {
                    assert(records[i] == rest[i - 1]);
                }
            }
        }
    }
}

/// What one more record at the end changes for a search: nothing where a
/// record was found before, and the new record is found where none was and
/// it is for this step of this commit.
pub proof fn lemma_find_record_push(
    records: Seq<StatusRecordView>,
    record: StatusRecordView,
    commit: Seq<char>,
    step_name: Seq<char>,
)
    ensures
        find_record(records.push(record), commit, step_name) == match find_record(
            records,
            commit,
            step_name,
        ) {
            Some(found) => Some(found),
            None => if is_record_of(record, commit, step_name) {
                Some(record.id)
            } else {
                None
            },
        },
    decreases records.len(),
{
    let longer = records.push(record);
    if records.len() == 0 {
        assert(longer.drop_first() =~= Seq::<StatusRecordView>::empty());
        assert(find_record(Seq::<StatusRecordView>::empty(), commit, step_name) is None);
    } else {
        assert(longer.drop_first() =~= records.drop_first().push(record));
        lemma_find_record_push(records.drop_first(), record, commit, step_name);
    }
}

/// A request that is repeated finds the record of the first request: the
/// record that was created for a step of a commit is the one found for it,
/// so the second request creates nothing.
pub proof fn lemma_created_record_is_found(
    records: Seq<StatusRecordView>,
    commit: Seq<char>,
    step_name: Seq<char>,
)
    requires
        find_record(records, commit, step_name) is None,
    ensures
        find_record(
            records.push(
                StatusRecordView {
                    id: records.len() as u64,
                    commit,
                    step_name,
                    state: StatusState::Queued,
                },
            ),
            commit,
            step_name,
        ) == Some(records.len() as u64),
{
    lemma_find_record_push(
        records,
        StatusRecordView { id: records.len() as u64, commit, step_name, state: StatusState::Queued },
        commit,
        step_name,
    );
}

/// A provider of status records that finds before it creates.
#[derive(Debug, PartialEq, Eq)]
pub struct StatusBoard {
    pub records: Vec<StatusRecord>,
}

impl View for StatusBoard {
    type V = Seq<StatusRecordView>;

    open spec fn view(&self) -> Seq<StatusRecordView> {
        record_views(self.records@)
    }
}

impl StatusBoard {
    /// A board is well formed where its records are.
    pub open spec fn wf(&self) -> bool {
        board_wf(self@)
    }

    /// The board without records.
    pub fn new() -> (out: StatusBoard)
        ensures
            out.wf(),
            out@ == Seq::<StatusRecordView>::empty(),
    {
        let out = StatusBoard { records: Vec::new() };
        out
    }

    /// The number of records.
    pub fn len(&self) -> (n: usize)
        ensures
            n == self@.len(),
    {
        self.records.len()
    }

    /// The identifier of the record of this step of this commit.
    pub fn find(&self, commit: &str, step_name: &str) -> (out: Option<u64>)
        ensures
            out == find_record(self@, commit@, step_name@),
    {
        let ghost all = self@;
        let wanted_commit = commit.to_owned();
        let wanted_step = step_name.to_owned();
        let mut i: usize = 0;
        assert(all.skip(0) =~= all);
        while i < self.records.len()
            invariant
                i <= self.records@.len(),
                all == record_views(self.records@),
                wanted_commit@ == commit@,
                wanted_step@ == step_name@,
                find_record(all, commit@, step_name@) == find_record(
                    all.skip(i as int),
                    commit@,
                    step_name@,
                ),
            decreases self.records@.len() - i,
        {
            assert(all.skip(i as int).drop_first() =~= all.skip(i + 1));
            let record = &self.records[i];
            if record.commit == wanted_commit && record.step_name == wanted_step {
                return Some(record.id);
            }
            i = i + 1;
        }
        None
    }

    /// The identifier of the record of this step of this commit. Where the
    /// board holds none, one is created in the state `Queued`; where it holds
    /// one, the board stays as it is.
    pub fn find_or_create(&mut self, commit: &str, step_name: &str) -> (id: u64)
        requires
            old(self).wf(),
        ensures
            final(self).wf(),
            match find_record(old(self)@, commit@, step_name@) {
                Some(found) => id == found && final(self)@ == old(self)@,
                None => id == old(self)@.len() && final(self)@ == old(self)@.push(
                    StatusRecordView {
                        id,
                        commit: commit@,
                        step_name: step_name@,
                        state: StatusState::Queued,
                    },
                ),
            },
    {
        match self.find(commit, step_name) {
            Some(found) => found,
            None => {
                let id: u64 = self.records.len() as u64;
                let record = StatusRecord::create(id, commit, step_name);
                proof {
                    lemma_find_record(self@, commit@, step_name@);
                    assert(record_views(self.records@.push(record)) =~= self@.push(record@));
                }
                self.records.push(record);
                id
            },
        }
    }

    /// The state of the record `id`, where the board holds it.
    pub fn state_of(&self, id: u64) -> (out: Option<StatusState>)
        requires
            self.wf(),
        ensures
            out == if id < self@.len() {
                Some(self@[id as int].state)
            } else {
                None
            },
    {
        if id < self.records.len() as u64 {
            Some(self.records[id as usize].state)
        } else {
            None
        }
    }

    /// Applies an update: the record that it is for is concluded, every
    /// other record stays as it is. `false` says that the board holds no such
    /// record and stays as it is.
    pub fn apply(&mut self, update: StatusUpdate) -> (known: bool)
        requires
            old(self).wf(),
        ensures
            final(self).wf(),
            known == (update.status_record_id < old(self)@.len()),
            final(self)@ == Seq::new(old(self)@.len(), |i: int| apply_update(old(self)@[i], update)),
    {
        let ghost before = self@;
        if update.status_record_id < self.records.len() as u64 {
            let at: usize = update.status_record_id as usize;
            let found = &self.records[at];
            let concluded = StatusRecord {
                id: found.id,
                commit: found.commit.clone(),
                step_name: found.step_name.clone(),
                state: StatusState::Completed { conclusion: update.conclusion },
            };
            self.records.set(at, concluded);
            assert(self@ =~= Seq::new(before.len(), |i: int| apply_update(before[i], update)));
            true
        } else {
            false
        }
    }
}

} // verus!
