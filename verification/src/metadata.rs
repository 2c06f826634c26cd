//! The metadata of a workload: what the cluster object carries so that a
//! finished unit can be traced back to its status record without deriving the
//! plan again.
//!
//! A workload carries its repository, branch, commit and installation under
//! fixed keys, and for each unit the identifier of its status record, as a
//! decimal numeral, under a key made from the unit's name.

use vstd::prelude::*;
use crate::text::{decimal, format_u64};
use crate::workload::{ExecutableUnitView, Workload, WorkloadView};

verus! {

/// One entry of a workload's metadata.
#[derive(Debug, PartialEq, Eq)]
pub struct Annotation {
    pub key: String,
    pub value: String,
}

/// The mathematical value of an [`Annotation`].
pub struct AnnotationView {
    pub key: Seq<char>,
    pub value: Seq<char>,
}

impl View for Annotation {
    type V = AnnotationView;

    open spec fn view(&self) -> AnnotationView {
        AnnotationView { key: self.key@, value: self.value@ }
    }
}

/// The values of a sequence of annotations.
pub open spec fn annotation_views(v: Seq<Annotation>) -> Seq<AnnotationView> {
    Seq::new(v.len(), |i: int| v[i]@)
}

/// The key under which the status record of the unit `unit_name` stands.
pub open spec fn record_key(unit_name: Seq<char>) -> Seq<char> {
    "status-record/"@ + unit_name
}

/// The entries that a workload carries about its run.
pub open spec fn run_annotations(w: WorkloadView) -> Seq<AnnotationView> {
    seq![
        AnnotationView { key: "repository"@, value: w.repository },
        AnnotationView { key: "branch"@, value: w.branch },
        AnnotationView { key: "commit"@, value: w.commit },
        AnnotationView { key: "installation"@, value: decimal(w.installation_id as nat) },
    ]
}

/// The entries that a workload carries about its units, in their order.
pub open spec fn unit_annotations(units: Seq<ExecutableUnitView>) -> Seq<AnnotationView> {
    Seq::new(
        units.len(),
        |i: int|
            AnnotationView {
                key: record_key(units[i].name),
                value: decimal(units[i].status_record_id as nat),
            },
    )
}

/// The metadata of a workload.
pub open spec fn annotations_of(w: WorkloadView) -> Seq<AnnotationView> {
    run_annotations(w) + unit_annotations(w.units)
}

/// The value of the first entry with the key `key`.
pub open spec fn lookup(annotations: Seq<AnnotationView>, key: Seq<char>) -> Option<Seq<char>>
    decreases annotations.len(),
{
    if annotations.len() == 0 {
        None
    } else if annotations[0].key == key {
        Some(annotations[0].value)
    } else {
        lookup(annotations.drop_first(), key)
    }
}

/// Whether no two units share a name.
pub open spec fn distinct_unit_names(units: Seq<ExecutableUnitView>) -> bool {
    forall|i: int, j: int|
        0 <= i < j < units.len() ==> (#[trigger] units[i]).name != (#[trigger] units[j]).name
}

/// Where `annotations[i]` is the first entry with its key, looking the key
/// up gives its value.
pub proof fn lemma_lookup_first(annotations: Seq<AnnotationView>, key: Seq<char>, i: int)
    requires
        0 <= i < annotations.len(),
        annotations[i].key == key,
        forall|j: int| 0 <= j < i ==> (#[trigger] annotations[j]).key != key,
    ensures
        lookup(annotations, key) == Some(annotations[i].value),
    decreases i,
{
    if i > 0 {
        let rest = annotations.drop_first();
        assert forall|j: int| 0 <= j < i - 1 implies (#[trigger] rest[j]).key != key by {
            assert(rest[j] == annotations[j + 1]);
        }
        lemma_lookup_first(rest, key, i - 1);
    }
}

/// The key of a unit's status record is none of the keys of the run, and
/// two units with different names have different keys.
pub proof fn lemma_record_key_is_apart(first: Seq<char>, second: Seq<char>)
    ensures
        record_key(first) != "repository"@,
        record_key(first) != "branch"@,
        record_key(first) != "commit"@,
        record_key(first) != "installation"@,
        record_key(first) == record_key(second) ==> first == second,
{
    reveal_strlit("status-record/");
    reveal_strlit("repository");
    reveal_strlit("branch");
    reveal_strlit("commit");
    reveal_strlit("installation");
    let prefix = "status-record/"@;
    assert(record_key(first)[0] == 's');
    if record_key(first) == record_key(second) {
        assert(record_key(first).skip(prefix.len() as int) =~= first);
    }
}

/// The metadata of a workload names the status record of each of its units:
/// where no two units share a name, looking up the key of a unit gives the
/// numeral of that unit's status record.
pub proof fn lemma_metadata_names_record(w: WorkloadView, i: int)
    requires
        distinct_unit_names(w.units),
        0 <= i < w.units.len(),
    ensures
        lookup(annotations_of(w), record_key(w.units[i].name)) == Some(
            decimal(w.units[i].status_record_id as nat),
        ),
{
    let all = annotations_of(w);
    let key = record_key(w.units[i].name);
    assert forall|j: int| 0 <= j < 4 + i implies (#[trigger] all[j]).key != key by {
        lemma_record_key_is_apart(w.units[i].name, w.units[i].name);
        if j >= 4 {
            lemma_record_key_is_apart(w.units[j - 4].name, w.units[i].name);
        } else {
            assert(all[j] == run_annotations(w)[j]);
        }
    }
    lemma_lookup_first(all, key, 4 + i);
}

/// The metadata of a workload names its run: looking up the keys of the
/// repository, the branch, the commit and the installation gives them.
pub proof fn lemma_metadata_names_run(w: WorkloadView)
    ensures
        lookup(annotations_of(w), "repository"@) == Some(w.repository),
        lookup(annotations_of(w), "branch"@) == Some(w.branch),
        lookup(annotations_of(w), "commit"@) == Some(w.commit),
        lookup(annotations_of(w), "installation"@) == Some(decimal(w.installation_id as nat)),
{
    reveal_strlit("repository");
    reveal_strlit("branch");
    reveal_strlit("commit");
    reveal_strlit("installation");
    let all = annotations_of(w);
    assert("repository"@[0] == 'r');
    assert("branch"@[0] == 'b');
    assert("commit"@[0] == 'c');
    lemma_lookup_first(all, "repository"@, 0);
    lemma_lookup_first(all, "branch"@, 1);
    lemma_lookup_first(all, "commit"@, 2);
    lemma_lookup_first(all, "installation"@, 3);
}

/// The key under which the status record of the unit `unit_name` stands.
pub fn status_record_key(unit_name: &str) -> (out: String)
    ensures
        out@ == record_key(unit_name@),
{
    let mut out = "status-record/".to_owned();
    out.append(unit_name);
    out
}

/// The numeral that stands for a status record in the metadata.
pub fn status_record_label(id: u64) -> (out: String)
    ensures
        out@ == decimal(id as nat),
{
    format_u64(id)
}

/// The metadata of a workload.
pub fn annotations(w: &Workload) -> (out: Vec<Annotation>)
    ensures
        annotation_views(out@) == annotations_of(w@),
{
    let mut out: Vec<Annotation> = Vec::new();
    out.push(Annotation { key: "repository".to_owned(), value: w.repository.clone() });
    out.push(Annotation { key: "branch".to_owned(), value: w.branch.clone() });
    out.push(Annotation { key: "commit".to_owned(), value: w.commit.clone() });
    out.push(
        Annotation { key: "installation".to_owned(), value: status_record_label(w.installation_id) },
    );
    let mut i: usize = 0;
    while i < w.units.len()
        invariant
            i <= w.units@.len(),
            out@.len() == 4 + i,
            annotation_views(out@) == run_annotations(w@) + unit_annotations(w@.units).take(
                i as int,
            ),
        decreases w.units@.len() - i,
    {
        let unit = &w.units[i];
        let entry = Annotation {
            key: status_record_key(unit.name.as_str()),
            value: status_record_label(unit.status_record_id),
        };
        proof {
            let units = unit_annotations(w@.units);
            assert((run_annotations(w@) + units.take(i as int)).push(units[i as int])
                =~= run_annotations(w@) + units.take(i + 1));
        }
        out.push(entry);
        i = i + 1;
    }
    out
}

/// The value of the first entry with the key `key`.
pub fn find_annotation(annotations: &Vec<Annotation>, key: &String) -> (out: Option<String>)
    ensures
        match out {
            Some(value) => lookup(annotation_views(annotations@), key@) == Some(value@),
            None => lookup(annotation_views(annotations@), key@) is None,
        },
{
    let ghost all = annotation_views(annotations@);
    let mut i: usize = 0;
    assert(all.skip(0) =~= all);
    while i < annotations.len()
        invariant
            i <= annotations@.len(),
            all == annotation_views(annotations@),
            lookup(all, key@) == lookup(all.skip(i as int), key@),
        decreases annotations@.len() - i,
    {
        assert(all.skip(i as int).drop_first() =~= all.skip(i + 1));
        if annotations[i].key == *key {
            return Some(annotations[i].value.clone());
        }
        i = i + 1;
    }
    None
}

} // verus!
