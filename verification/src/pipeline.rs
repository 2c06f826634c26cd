//! Pipeline definitions and their compiler.
//!
//! A pipeline document is a text of lines, separated by line feeds. An empty
//! line and a line that starts with `#` say nothing. Every other line
//! defines one step, in three to five fields separated by `|`:
//!
//! ```text
//! name|image|command|selector|environment
//! ```
//!
//! `name` and `image` are not empty. `selector` is a branch pattern (see
//! [`crate::selector`]); where it is left out or empty the step runs on every
//! branch. `environment` is a list of `NAME=value` entries separated by
//! commas, each with a non-empty name; where the field is left out or empty
//! the step has no environment. No two steps of one pipeline share a name.

use vstd::prelude::*;
use crate::selector::{BranchSelector, SelectorView};
use crate::text::{chars_of, find_char, first_index_of, rows, split, split_chars, string_from, string_of};

verus! {

/// One variable of a step's environment.
#[derive(Debug, PartialEq, Eq)]
pub struct EnvVar {
    pub name: String,
    pub value: String,
}

/// The mathematical value of an [`EnvVar`].
pub struct EnvVarView {
    pub name: Seq<char>,
    pub value: Seq<char>,
}

impl View for EnvVar {
    type V = EnvVarView;

    open spec fn view(&self) -> EnvVarView {
        EnvVarView { name: self.name@, value: self.value@ }
    }
}

impl Clone for EnvVar {
    fn clone(&self) -> (out: Self)
        ensures
            out@ == self@,
    {
        EnvVar { name: self.name.clone(), value: self.value.clone() }
    }
}

/// The values of a sequence of environment variables.
pub open spec fn env_views(v: Seq<EnvVar>) -> Seq<EnvVarView> {
    Seq::new(v.len(), |i: int| v[i]@)
}

/// A copy of an environment.
pub fn clone_environment(v: &Vec<EnvVar>) -> (out: Vec<EnvVar>)
    ensures
        env_views(out@) == env_views(v@),
{
    let mut out: Vec<EnvVar> = Vec::new();
    let mut i: usize = 0;
    while i < v.len()
        invariant
            i <= v@.len(),
            out@.len() == i,
            forall|k: int| 0 <= k < i ==> out@[k]@ == v@[k]@,
        decreases v@.len() - i,
    {
        out.push(v[i].clone());
        i = i + 1;
    }
    out
}

/// How a step is executed: the image it runs in, the command it runs and the
/// environment the command sees.
#[derive(Debug, PartialEq, Eq)]
pub struct ExecutionSpec {
    pub image: String,
    pub command: String,
    pub environment: Vec<EnvVar>,
}

/// The mathematical value of an [`ExecutionSpec`].
pub struct ExecutionSpecView {
    pub image: Seq<char>,
    pub command: Seq<char>,
    pub environment: Seq<EnvVarView>,
}

impl View for ExecutionSpec {
    type V = ExecutionSpecView;

    open spec fn view(&self) -> ExecutionSpecView {
        ExecutionSpecView {
            image: self.image@,
            command: self.command@,
            environment: env_views(self.environment@),
        }
    }
}

impl Clone for ExecutionSpec {
    fn clone(&self) -> (out: Self)
        ensures
            out@ == self@,
    {
        ExecutionSpec {
            image: self.image.clone(),
            command: self.command.clone(),
            environment: clone_environment(&self.environment),
        }
    }
}

/// One step of a pipeline. Within a pipeline a step is known by its name.
#[derive(Debug, PartialEq, Eq)]
pub struct Step {
    pub name: String,
    pub branch_selector: BranchSelector,
    pub execution_spec: ExecutionSpec,
}

/// The mathematical value of a [`Step`].
pub struct StepView {
    pub name: Seq<char>,
    pub branch_selector: SelectorView,
    pub execution_spec: ExecutionSpecView,
}

impl View for Step {
    type V = StepView;

    open spec fn view(&self) -> StepView {
        StepView {
            name: self.name@,
            branch_selector: self.branch_selector@,
            execution_spec: self.execution_spec@,
        }
    }
}

impl Clone for Step {
    fn clone(&self) -> (out: Self)
        ensures
            out@ == self@,
    {
        Step {
            name: self.name.clone(),
            branch_selector: self.branch_selector.clone(),
            execution_spec: self.execution_spec.clone(),
        }
    }
}

/// The values of a sequence of steps.
pub open spec fn step_views(v: Seq<Step>) -> Seq<StepView> {
    Seq::new(v.len(), |i: int| v[i]@)
}

/// The names of a sequence of steps, in order.
pub open spec fn step_names(steps: Seq<StepView>) -> Seq<Seq<char>> {
    Seq::new(steps.len(), |i: int| steps[i].name)
}

/// Whether one of `steps` is named `name`.
pub open spec fn has_name(steps: Seq<StepView>, name: Seq<char>) -> bool {
    exists|i: int| 0 <= i < steps.len() && (#[trigger] steps[i]).name == name
}

/// Whether no two of `steps` share a name.
pub open spec fn distinct_names(steps: Seq<StepView>) -> bool {
    forall|i: int, j: int|
        0 <= i < j < steps.len() ==> (#[trigger] steps[i]).name != (#[trigger] steps[j]).name
}

/// A compiled pipeline: its steps in the order of the document.
#[derive(Debug, PartialEq, Eq)]
pub struct Pipeline {
    pub steps: Vec<Step>,
}

impl Pipeline {
    /// A pipeline is well formed where no two of its steps share a name.
    pub open spec fn wf(&self) -> bool {
        distinct_names(step_views(self.steps@))
    }
}

/// Why a document is no pipeline. Both carry the commit whose document it
/// was.
#[derive(Debug, PartialEq, Eq)]
pub enum CompileError {
    /// The line with this number, counted from one, is not a step.
    MalformedPipeline { commit: String, line: usize },
    /// A second step has this name.
    DuplicateStepName { commit: String, name: String },
}

/// The mathematical value of a [`CompileError`].
pub enum CompileErrorView {
    MalformedPipeline { commit: Seq<char>, line: nat },
    DuplicateStepName { commit: Seq<char>, name: Seq<char> },
}

impl View for CompileError {
    type V = CompileErrorView;

    open spec fn view(&self) -> CompileErrorView {
        match self {
            CompileError::MalformedPipeline { commit, line } => CompileErrorView::MalformedPipeline {
                commit: commit@,
                line: *line as nat,
            },
            CompileError::DuplicateStepName { commit, name } => CompileErrorView::DuplicateStepName {
                commit: commit@,
                name: name@,
            },
        }
    }
}

/// Whether a line of a document says nothing.
pub open spec fn is_ignored(line: Seq<char>) -> bool {
    line.len() == 0 || line[0] == '#'
}

/// The variable that one entry of an environment field defines.
pub open spec fn parse_binding(entry: Seq<char>) -> Option<EnvVarView> {
    let k = first_index_of(entry, '=');
    if 0 < k < entry.len() {
        Some(EnvVarView { name: entry.take(k), value: entry.skip(k + 1) })
    } else {
        None
    }
}

/// The environment that an environment field defines.
pub open spec fn parse_environment(field: Seq<char>) -> Option<Seq<EnvVarView>> {
    let entries = split(field, ',');
    if field.len() == 0 {
        Some(Seq::empty())
    } else if forall|i: int| 0 <= i < entries.len() ==> (#[trigger] parse_binding(entries[i])) is Some {
        Some(Seq::new(entries.len(), |i: int| parse_binding(entries[i])->0))
    } else {
        None
    }
}

/// The step that a line defines.
pub open spec fn parse_step(line: Seq<char>) -> Option<StepView> {
    let f = split(line, '|');
    if f.len() < 3 || f.len() > 5 || f[0].len() == 0 || f[1].len() == 0 {
        None
    } else {
        let branch_selector = if f.len() >= 4 && f[3].len() > 0 {
            SelectorView::Pattern(f[3])
        } else {
            SelectorView::All
        };
        let environment = if f.len() == 5 {
            parse_environment(f[4])
        } else {
            Some(Seq::empty())
        };
        match environment {
            Some(e) => Some(
                StepView {
                    name: f[0],
                    branch_selector,
                    execution_spec: ExecutionSpecView { image: f[1], command: f[2], environment: e },
                },
            ),
            None => None,
        }
    }
}

/// What the first `n` lines compile to: their steps in order, or the first
/// defect met.
pub open spec fn compile_lines(lines: Seq<Seq<char>>, n: int, commit: Seq<char>) -> Result<
    Seq<StepView>,
    CompileErrorView,
>
    decreases n,
{
    if n <= 0 {
        Ok(Seq::empty())
    } else {
        match compile_lines(lines, n - 1, commit) {
            Err(e) => Err(e),
            Ok(steps) => {
                let line = lines[n - 1];
                if is_ignored(line) {
                    Ok(steps)
                } else {
                    match parse_step(line) {
                        None => Err(CompileErrorView::MalformedPipeline { commit, line: n as nat }),
                        Some(step) => if has_name(steps, step.name) {
                            Err(CompileErrorView::DuplicateStepName { commit, name: step.name })
                        } else {
                            Ok(steps.push(step))
                        },
                    }
                }
            },
        }
    }
}

/// What a document compiles to.
pub open spec fn compile_spec(document: Seq<char>, commit: Seq<char>) -> Result<
    Seq<StepView>,
    CompileErrorView,
> {
    let lines = split(document, '\n');
    compile_lines(lines, lines.len() as int, commit)
}

/// Once a defect is met, more lines do not change the outcome.
pub proof fn lemma_compile_lines_defect_stays(
    lines: Seq<Seq<char>>,
    k: int,
    n: int,
    commit: Seq<char>,
)
    requires
        0 <= k <= n,
        compile_lines(lines, k, commit) is Err,
    ensures
        compile_lines(lines, n, commit) == compile_lines(lines, k, commit),
    decreases n - k,
{
    if k < n {
        lemma_compile_lines_defect_stays(lines, k, n - 1, commit);
    }
}

/// The steps of a compiled pipeline have distinct names.
pub proof fn lemma_compile_lines_distinct(lines: Seq<Seq<char>>, n: int, commit: Seq<char>)
    ensures
        compile_lines(lines, n, commit) is Ok ==> distinct_names(
            compile_lines(lines, n, commit)->Ok_0,
        ),
    decreases n,
{
    if n > 0 {
        lemma_compile_lines_distinct(lines, n - 1, commit);
        if compile_lines(lines, n, commit) is Ok {
            let before = compile_lines(lines, n - 1, commit)->Ok_0;
            let after = compile_lines(lines, n, commit)->Ok_0;
            if !is_ignored(lines[n - 1]) {
                let step = parse_step(lines[n - 1])->0;
                assert forall|i: int, j: int| 0 <= i < j < after.len() implies (#[trigger] after[i]).name
                    != (#[trigger] after[j]).name by {
                    if j == before.len() {
                        assert(before[i].name != step.name);
                    } else {
                        assert(after[i] == before[i] && after[j] == before[j]);
                    }
                }
            }
        }
    }
}

/// Every successful compilation gives distinct names.
pub proof fn lemma_compile_distinct(document: Seq<char>, commit: Seq<char>)
    ensures
        compile_spec(document, commit) is Ok ==> distinct_names(
            compile_spec(document, commit)->Ok_0,
        ),
{
    let lines = split(document, '\n');
    lemma_compile_lines_distinct(lines, lines.len() as int, commit);
}

/// The empty document is a pipeline without steps.
pub proof fn lemma_empty_document(commit: Seq<char>)
    ensures
        compile_spec(Seq::empty(), commit) == Ok::<Seq<StepView>, CompileErrorView>(Seq::empty()),
{
    let none = Seq::<char>::empty();
    let lines = split(none, '\n');
    assert(compile_lines(lines, 0, commit) == Ok::<Seq<StepView>, CompileErrorView>(Seq::empty()));
}

fn parse_binding_chars(entry: &Vec<char>) -> (out: Option<EnvVar>)
    ensures
        match out {
            Some(e) => parse_binding(entry@) == Some(e@),
            None => parse_binding(entry@) is None,
        },
{
    let k: usize = find_char(entry, '=');
    if 0 < k && k < entry.len() {
        let name = string_of(entry, 0, k);
        let value = string_of(entry, k + 1, entry.len());
        Some(EnvVar { name, value })
    } else {
        None
    }
}

fn parse_environment_chars(field: &Vec<char>) -> (out: Option<Vec<EnvVar>>)
    ensures
        match out {
            Some(v) => parse_environment(field@) == Some(env_views(v@)),
            None => parse_environment(field@) is None,
        },
{
    let mut out: Vec<EnvVar> = Vec::new();
    if field.len() == 0 {
        return Some(out);
    }
    let entries = split_chars(field, ',');
    let ghost texts = split(field@, ',');
    let mut i: usize = 0;
    while i < entries.len()
        invariant
            i <= entries@.len(),
            rows(entries@) == texts,
            texts == split(field@, ','),
            field@.len() > 0,
            out@.len() == i,
            forall|k: int| 0 <= k < i ==> (#[trigger] parse_binding(texts[k])) == Some(out@[k]@),
        decreases entries@.len() - i,
    {
        assert(texts[i as int] == entries@[i as int]@);
        match parse_binding_chars(&entries[i]) {
            Some(e) => {
                out.push(e);
            },
            None => {
                return None;
            },
        }
        i = i + 1;
    }
    Some(out)
}

fn parse_step_chars(line: &Vec<char>) -> (out: Option<Step>)
    ensures
        match out {
            Some(s) => parse_step(line@) == Some(s@),
            None => parse_step(line@) is None,
        },
{
    let fields = split_chars(line, '|');
    let n: usize = fields.len();
    if n < 3 || n > 5 {
        return None;
    }
    if fields[0].len() == 0 || fields[1].len() == 0 {
        return None;
    }
    let branch_selector = if n >= 4 && fields[3].len() > 0 {
        BranchSelector::Pattern(string_from(&fields[3]))
    } else {
        BranchSelector::All
    };
    let environment: Vec<EnvVar> = if n == 5 {
        match parse_environment_chars(&fields[4]) {
            Some(e) => e,
            None => {
                return None;
            },
        }
    } else {
        let e: Vec<EnvVar> = Vec::new();
        assert(env_views(e@) =~= Seq::<EnvVarView>::empty());
        e
    };
    Some(
        Step {
            name: string_from(&fields[0]),
            branch_selector,
            execution_spec: ExecutionSpec {
                image: string_from(&fields[1]),
                command: string_from(&fields[2]),
                environment,
            },
        },
    )
}

/// Whether one of `steps` is named `name`.
pub fn has_step_named(steps: &Vec<Step>, name: &String) -> (found: bool)
    ensures
        found == has_name(step_views(steps@), name@),
{
    let mut i: usize = 0;
    while i < steps.len()
        invariant
            i <= steps@.len(),
            forall|k: int| 0 <= k < i ==> (#[trigger] step_views(steps@)[k]).name != name@,
        decreases steps@.len() - i,
    {
        if steps[i].name == *name {
            assert(step_views(steps@)[i as int].name == name@);
            return true;
        }
        i = i + 1;
    }
    false
}

/// Compiles a pipeline document into its steps, in the order of the
/// document. `commit` is the commit whose document it is, and is handed back
/// in the error.
pub fn compile(document: &str, commit: &str) -> (out: Result<Pipeline, CompileError>)
    ensures
        match out {
            Ok(p) => compile_spec(document@, commit@) == Ok::<Seq<StepView>, CompileErrorView>(
                step_views(p.steps@),
            ) && p.wf(),
            Err(e) => compile_spec(document@, commit@) == Err::<Seq<StepView>, CompileErrorView>(e@),
        },
{
    let text = chars_of(document);
    let lines = split_chars(&text, '\n');
    let ghost texts = split(document@, '\n');
    let mut steps: Vec<Step> = Vec::new();
    let mut i: usize = 0;
    assert(step_views(steps@) =~= Seq::<StepView>::empty());
    while i < lines.len()
        invariant
            i <= lines@.len(),
            rows(lines@) == texts,
            texts == split(document@, '\n'),
            compile_lines(texts, i as int, commit@) == Ok::<Seq<StepView>, CompileErrorView>(
                step_views(steps@),
            ),
        decreases lines@.len() - i,
    {
        let line = &lines[i];
        if line.len() > 0 && line[0] != '#' {
            match parse_step_chars(line) {
                None => {
                    proof {
                        lemma_compile_lines_defect_stays(texts, i + 1, texts.len() as int, commit@);
                    }
                    return Err(
                        CompileError::MalformedPipeline { commit: commit.to_owned(), line: i + 1 },
                    );
                },
                Some(step) => {
                    if has_step_named(&steps, &step.name) {
                        proof {
                            lemma_compile_lines_defect_stays(
                                texts,
                                i + 1,
                                texts.len() as int,
                                commit@,
                            );
                        }
                        return Err(
                            CompileError::DuplicateStepName {
                                commit: commit.to_owned(),
                                name: step.name,
                            },
                        );
                    }
                    assert(step_views(steps@.push(step)) =~= step_views(steps@).push(step@));
                    steps.push(step);
                },
            }
        }
        i = i + 1;
    }
    proof {
        lemma_compile_lines_distinct(texts, texts.len() as int, commit@);
    }
    Ok(Pipeline { steps })
}

} // verus!
