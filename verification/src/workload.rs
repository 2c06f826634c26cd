//! The workload generator: one cluster workload for a bound plan, with one
//! executable unit per step.
//!
//! A workload is named after its repository and commit alone, so that a
//! second dispatch for the same commit meets the first under the same name.

use vstd::prelude::*;
use crate::pipeline::{clone_environment, env_views, EnvVar, EnvVarView};
use crate::plan::{binding_views, StepBinding, StepBindingView};
use crate::text::{chars_of, push_char};

verus! {

/// What runs one step: a container of the workload.
#[derive(Debug, PartialEq, Eq)]
pub struct ExecutableUnit {
    /// The name of the step.
    pub name: String,
    pub image: String,
    pub command: String,
    pub environment: Vec<EnvVar>,
    /// The status record that reports this unit's outcome.
    pub status_record_id: u64,
}

/// The mathematical value of an [`ExecutableUnit`].
pub struct ExecutableUnitView {
    pub name: Seq<char>,
    pub image: Seq<char>,
    pub command: Seq<char>,
    pub environment: Seq<EnvVarView>,
    pub status_record_id: u64,
}

impl View for ExecutableUnit {
    type V = ExecutableUnitView;

    open spec fn view(&self) -> ExecutableUnitView {
        ExecutableUnitView {
            name: self.name@,
            image: self.image@,
            command: self.command@,
            environment: env_views(self.environment@),
            status_record_id: self.status_record_id,
        }
    }
}

/// The values of a sequence of units.
pub open spec fn unit_views(v: Seq<ExecutableUnit>) -> Seq<ExecutableUnitView> {
    Seq::new(v.len(), |i: int| v[i]@)
}

/// The cluster-scheduled unit of one run.
#[derive(Debug, PartialEq, Eq)]
pub struct Workload {
    pub name: String,
    pub namespace: String,
    pub repository: String,
    pub branch: String,
    pub commit: String,
    pub installation_id: u64,
    pub units: Vec<ExecutableUnit>,
}

/// The mathematical value of a [`Workload`].
pub struct WorkloadView {
    pub name: Seq<char>,
    pub namespace: Seq<char>,
    pub repository: Seq<char>,
    pub branch: Seq<char>,
    pub commit: Seq<char>,
    pub installation_id: u64,
    pub units: Seq<ExecutableUnitView>,
}

impl View for Workload {
    type V = WorkloadView;

    open spec fn view(&self) -> WorkloadView {
        WorkloadView {
            name: self.name@,
            namespace: self.namespace@,
            repository: self.repository@,
            branch: self.branch@,
            commit: self.commit@,
            installation_id: self.installation_id,
            units: unit_views(self.units@),
        }
    }
}

/// Why no workload was generated.
#[derive(Debug, PartialEq, Eq, Clone, Copy)]
pub enum GenerateError {
    /// There was no binding to generate a unit from.
    EmptyBindingSet,
}

/// Whether a character may stand in a workload name: a lower-case letter, a
/// digit, `-` or `.`.
pub open spec fn is_name_char(c: char) -> bool {
    ('a' <= c && c <= 'z') || ('0' <= c && c <= '9') || c == '-' || c == '.'
}

/// The character that stands for `c` in a workload name: `c` itself where it
/// may stand there, the lower-case letter for an upper-case one, and `-` for
/// anything else.
pub open spec fn name_char(c: char) -> char {
    if is_name_char(c) {
        c
    } else if 'A' <= c && c <= 'Z' {
        ((c as u8) + 32) as char
    } else {
        '-'
    }
}

/// `text` as it stands in a workload name.
pub open spec fn name_text(text: Seq<char>) -> Seq<char> {
    Seq::new(text.len(), |i: int| name_char(text[i]))
}

/// The name of the workload for a commit of a repository.
pub open spec fn workload_name_spec(repository: Seq<char>, commit: Seq<char>) -> Seq<char> {
    seq!['c', 'i', '-'] + name_text(repository) + seq!['-'] + name_text(commit)
}

/// The unit that runs a bound step.
pub open spec fn unit_of(binding: StepBindingView) -> ExecutableUnitView {
    ExecutableUnitView {
        name: binding.step.name,
        image: binding.step.execution_spec.image,
        command: binding.step.execution_spec.command,
        environment: binding.step.execution_spec.environment,
        status_record_id: binding.status_record_id,
    }
}

/// The workload of a bound plan.
pub open spec fn workload_spec(
    bindings: Seq<StepBindingView>,
    commit: Seq<char>,
    repository: Seq<char>,
    branch: Seq<char>,
    namespace: Seq<char>,
    installation_id: u64,
) -> WorkloadView {
    WorkloadView {
        name: workload_name_spec(repository, commit),
        namespace,
        repository,
        branch,
        commit,
        installation_id,
        units: Seq::new(bindings.len(), |i: int| unit_of(bindings[i])),
    }
}

/// The names of a sequence of units, in order.
pub open spec fn unit_names(units: Seq<ExecutableUnitView>) -> Seq<Seq<char>> {
    Seq::new(units.len(), |i: int| units[i].name)
}

/// The step names of a sequence of bindings, in order.
pub open spec fn bound_names(bindings: Seq<StepBindingView>) -> Seq<Seq<char>> {
    Seq::new(bindings.len(), |i: int| bindings[i].step.name)
}

/// The name of a workload depends on the repository and the commit and on
/// nothing else.
pub proof fn lemma_workload_name_deterministic(
    first: Seq<StepBindingView>,
    second: Seq<StepBindingView>,
    commit: Seq<char>,
    repository: Seq<char>,
    first_branch: Seq<char>,
    second_branch: Seq<char>,
    first_namespace: Seq<char>,
    second_namespace: Seq<char>,
    first_installation: u64,
    second_installation: u64,
)
    ensures
        workload_spec(
            first,
            commit,
            repository,
            first_branch,
            first_namespace,
            first_installation,
        ).name == workload_spec(
            second,
            commit,
            repository,
            second_branch,
            second_namespace,
            second_installation,
        ).name,
{
}

/// Every character of a workload name may stand in one.
pub proof fn lemma_workload_name_is_safe(repository: Seq<char>, commit: Seq<char>)
    ensures
        forall|i: int|
            0 <= i < workload_name_spec(repository, commit).len() ==> is_name_char(
                #[trigger] workload_name_spec(repository, commit)[i],
            ),
{
    let name = workload_name_spec(repository, commit);
    assert forall|i: int| 0 <= i < name.len() implies is_name_char(#[trigger] name[i]) by {
        let r = repository.len() as int;
        if 3 <= i < 3 + r {
            lemma_name_char_is_safe(repository[i - 3]);
        } else if i > 3 + r {
            lemma_name_char_is_safe(commit[i - 4 - r]);
        }
    }
}

/// `name_char` gives a character that may stand in a workload name.
pub proof fn lemma_name_char_is_safe(c: char)
    ensures
        is_name_char(name_char(c)),
{
}

/// The units of a workload carry the names of the bound steps and their
/// status records, one for one and in order.
pub proof fn lemma_units_follow_bindings(
    bindings: Seq<StepBindingView>,
    commit: Seq<char>,
    repository: Seq<char>,
    branch: Seq<char>,
    namespace: Seq<char>,
    installation_id: u64,
)
    ensures
        ({
            let w = workload_spec(bindings, commit, repository, branch, namespace, installation_id);
            &&& w.units.len() == bindings.len()
            &&& unit_names(w.units) == bound_names(bindings)
            &&& forall|i: int|
                0 <= i < bindings.len() ==> (#[trigger] w.units[i]).status_record_id
                    == bindings[i].status_record_id
        }),
{
}

fn name_char_of(c: char) -> (out: char)
    ensures
        out == name_char(c),
{
    if (c >= 'a' && c <= 'z') || (c >= '0' && c <= '9') || c == '-' || c == '.' {
        c
    } else if c >= 'A' && c <= 'Z' {
        ((c as u8) + 32) as char
    } else {
        '-'
    }
}

fn push_name_text(out: &mut String, text: &str)
    ensures
        final(out)@ == old(out)@ + name_text(text@),
{
    let chars = chars_of(text);
    let mut i: usize = 0;
    while i < chars.len()
        invariant
            i <= chars@.len(),
            chars@ == text@,
            out@ == old(out)@ + name_text(text@).take(i as int),
        decreases chars@.len() - i,
    {
        push_char(out, name_char_of(chars[i]));
        i = i + 1;
    }
}

/// The name of the workload for a commit of a repository.
pub fn workload_name(repository: &str, commit: &str) -> (out: String)
    ensures
        out@ == workload_name_spec(repository@, commit@),
{
    let mut out = String::new();
    push_char(&mut out, 'c');
    push_char(&mut out, 'i');
    push_char(&mut out, '-');
    push_name_text(&mut out, repository);
    push_char(&mut out, '-');
    push_name_text(&mut out, commit);
    out
}

/// Generates the workload of a bound plan: one unit per binding, in order,
/// each with the status record of its step, under the name that the
/// repository and the commit determine. Fails only where there is no
/// binding.
pub fn generate_workload(
    bindings: &Vec<StepBinding>,
    commit: &str,
    repository: &str,
    branch: &str,
    namespace: &str,
    installation_id: u64,
) -> (out: Result<Workload, GenerateError>)
    ensures
        match out {
            Ok(w) => bindings@.len() > 0 && w@ == workload_spec(
                binding_views(bindings@),
                commit@,
                repository@,
                branch@,
                namespace@,
                installation_id,
            ),
            Err(e) => bindings@.len() == 0 && e == GenerateError::EmptyBindingSet,
        },
{
    if bindings.len() == 0 {
        return Err(GenerateError::EmptyBindingSet);
    }
    let mut units: Vec<ExecutableUnit> = Vec::new();
    let mut i: usize = 0;
    while i < bindings.len()
        invariant
            i <= bindings@.len(),
            units@.len() == i,
            forall|k: int| 0 <= k < i ==> (#[trigger] units@[k])@ == unit_of(bindings@[k]@),
        decreases bindings@.len() - i,
    {
        let b = &bindings[i];
        units.push(
            ExecutableUnit {
                name: b.step.name.clone(),
                image: b.step.execution_spec.image.clone(),
                command: b.step.execution_spec.command.clone(),
                environment: clone_environment(&b.step.execution_spec.environment),
                status_record_id: b.status_record_id,
            },
        );
        i = i + 1;
    }
    let w = Workload {
        name: workload_name(repository, commit),
        namespace: namespace.to_owned(),
        repository: repository.to_owned(),
        branch: branch.to_owned(),
        commit: commit.to_owned(),
        installation_id,
        units,
    };
    assert(w@.units =~= workload_spec(
        binding_views(bindings@),
        commit@,
        repository@,
        branch@,
        namespace@,
        installation_id,
    ).units);
    Ok(w)
}

} // verus!
