use ci_orchestrator::metadata::{
    annotations, find_annotation, status_record_key, status_record_label, Annotation,
};
use ci_orchestrator::pipeline::{compile, EnvVar};
use ci_orchestrator::plan::StepBinding;
use ci_orchestrator::workload::{
    generate_workload, workload_name, ExecutableUnit, GenerateError, Workload,
};

fn bindings(doc: &str, ids: &[u64]) -> Vec<StepBinding> {
    let p = compile(doc, "abc123").unwrap();
    p.steps
        .into_iter()
        .zip(ids.iter())
        .map(|(step, id)| StepBinding { step, status_record_id: *id })
        .collect()
}

fn note(key: &str, value: &str) -> Annotation {
    Annotation { key: key.to_string(), value: value.to_string() }
}

#[test]
fn workload_name_is_made_of_repository_and_commit() {
    assert_eq!(workload_name("octo/repo", "abc123"), "ci-octo-repo-abc123");
    assert_eq!(workload_name("Octo-Org/My_Repo.rs", "ABCdef0"), "ci-octo-org-my-repo.rs-abcdef0");
    assert_eq!(workload_name("", ""), "ci--");
    assert_eq!(workload_name("a b", "é1"), "ci-a-b--1");
}

#[test]
fn workload_name_holds_only_name_characters() {
    let name = workload_name("Some Org/Repo@Name!", "A1b2C3~");
    assert!(name
        .chars()
        .all(|c| c.is_ascii_lowercase() || c.is_ascii_digit() || c == '-' || c == '.'));
}

#[test]
fn same_commit_gives_same_name_whatever_else_differs() {
    let one = generate_workload(&bindings("lint|i|c", &[1]), "abc123", "octo/repo", "main", "ns1", 5)
        .unwrap();
    let two = generate_workload(
        &bindings("test|j|d\nmore|j|d", &[8, 9]),
        "abc123",
        "octo/repo",
        "feature/x",
        "ns2",
        6,
    )
    .unwrap();
    assert_eq!(one.name, two.name);
    let other =
        generate_workload(&bindings("lint|i|c", &[1]), "def456", "octo/repo", "main", "ns1", 5)
            .unwrap();
    assert_ne!(one.name, other.name);
}

#[test]
fn generates_one_unit_per_binding_in_order() {
    let b = bindings("lint|rust:1|cargo clippy\ntest|rust:2|cargo test||RUST_LOG=debug", &[11, 12]);
    let w = generate_workload(&b, "abc123", "octo/repo", "feature/x", "ci", 42).unwrap();
    assert_eq!(
        w,
        Workload {
            name: "ci-octo-repo-abc123".to_string(),
            namespace: "ci".to_string(),
            repository: "octo/repo".to_string(),
            branch: "feature/x".to_string(),
            commit: "abc123".to_string(),
            installation_id: 42,
            units: vec![
                ExecutableUnit {
                    name: "lint".to_string(),
                    image: "rust:1".to_string(),
                    command: "cargo clippy".to_string(),
                    environment: Vec::new(),
                    status_record_id: 11,
                },
                ExecutableUnit {
                    name: "test".to_string(),
                    image: "rust:2".to_string(),
                    command: "cargo test".to_string(),
                    environment: vec![EnvVar {
                        name: "RUST_LOG".to_string(),
                        value: "debug".to_string()
                    }],
                    status_record_id: 12,
                },
            ],
        }
    );
}

#[test]
fn no_binding_gives_empty_binding_set() {
    assert_eq!(
        generate_workload(&Vec::new(), "abc123", "octo/repo", "main", "ci", 1),
        Err(GenerateError::EmptyBindingSet)
    );
}

#[test]
fn metadata_carries_run_and_records() {
    let b = bindings("lint|i|c\ntest|i|c", &[11, 12]);
    let w = generate_workload(&b, "abc123", "octo/repo", "feature/x", "ci", 42).unwrap();
    assert_eq!(
        annotations(&w),
        vec![
            note("repository", "octo/repo"),
            note("branch", "feature/x"),
            note("commit", "abc123"),
            note("installation", "42"),
            note("status-record/lint", "11"),
            note("status-record/test", "12"),
        ]
    );
}

#[test]
fn record_key_and_label() {
    assert_eq!(status_record_key("lint"), "status-record/lint");
    assert_eq!(status_record_key(""), "status-record/");
    assert_eq!(status_record_label(0), "0");
    assert_eq!(status_record_label(9001), "9001");
}

#[test]
fn find_annotation_gives_first_value_of_key() {
    let all = vec![note("a", "1"), note("b", "2"), note("a", "3")];
    assert_eq!(find_annotation(&all, &"a".to_string()), Some("1".to_string()));
    assert_eq!(find_annotation(&all, &"b".to_string()), Some("2".to_string()));
    assert_eq!(find_annotation(&all, &"c".to_string()), None);
    assert_eq!(find_annotation(&Vec::new(), &"a".to_string()), None);
}

#[test]
fn metadata_names_the_record_of_each_unit() {
    let b = bindings("lint|i|c\ntest|i|c\ndeploy|i|c", &[5, 6, 7]);
    let w = generate_workload(&b, "abc123", "octo/repo", "main", "ci", 42).unwrap();
    let notes = annotations(&w);
    for unit in &w.units {
        assert_eq!(
            find_annotation(&notes, &status_record_key(&unit.name)),
            Some(status_record_label(unit.status_record_id))
        );
    }
}
