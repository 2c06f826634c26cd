use ci_orchestrator::pipeline::{compile, Step};
use ci_orchestrator::plan::{filter, StepBinding};

fn names(steps: &Vec<Step>) -> Vec<String> {
    steps.iter().map(|s| s.name.clone()).collect()
}

const DOC: &str = "lint|img|run lint\ntest|img|run test\ndeploy|img|run deploy|main\ndocs|img|run docs|release/*\naudit|img|run audit|*";

#[test]
fn pipeline_without_steps_has_no_plan() {
    assert_eq!(filter(&Vec::new(), "main"), None);
    assert_eq!(filter(&Vec::new(), ""), None);
}

#[test]
fn plan_may_be_empty_where_steps_exist() {
    let p = compile("deploy|img|cmd|main", "c").unwrap();
    assert_eq!(filter(&p.steps, "feature/x"), Some(Vec::new()));
}

#[test]
fn steps_without_selector_run_on_every_branch() {
    let p = compile("lint|img|a\ntest|img|b", "c").unwrap();
    for branch in ["main", "feature/x", "", "*"] {
        let plan = filter(&p.steps, branch).unwrap();
        assert_eq!(plan, p.steps);
    }
}

#[test]
fn exact_selector_runs_on_its_branch_only() {
    let p = compile(DOC, "c").unwrap();
    assert_eq!(names(&filter(&p.steps, "main").unwrap()), vec!["lint", "test", "deploy", "audit"]);
    assert_eq!(names(&filter(&p.steps, "feature/x").unwrap()), vec!["lint", "test", "audit"]);
    assert_eq!(names(&filter(&p.steps, "main2").unwrap()), vec!["lint", "test", "audit"]);
}

#[test]
fn wildcard_selector_runs_on_matching_branches() {
    let p = compile(DOC, "c").unwrap();
    assert_eq!(
        names(&filter(&p.steps, "release/1.0").unwrap()),
        vec!["lint", "test", "docs", "audit"]
    );
    assert_eq!(names(&filter(&p.steps, "release").unwrap()), vec!["lint", "test", "audit"]);
}

#[test]
fn plan_keeps_the_order_of_the_pipeline() {
    let p = compile("z|i|c\ny|i|c|main\nx|i|c\nw|i|c|other\nv|i|c|ma*", "c").unwrap();
    assert_eq!(names(&filter(&p.steps, "main").unwrap()), vec!["z", "y", "x", "v"]);
}

#[test]
fn plan_holds_whole_steps() {
    let p = compile("test|img|cmd|main|A=1", "c").unwrap();
    let plan = filter(&p.steps, "main").unwrap();
    assert_eq!(plan, p.steps);
}

#[test]
fn binding_clone_keeps_step_and_record() {
    let p = compile("test|img|cmd|main|A=1", "c").unwrap();
    let b = StepBinding { step: p.steps[0].clone(), status_record_id: 77 };
    assert_eq!(b.clone(), b);
}
