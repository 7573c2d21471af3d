//! Tests of turning an evaluation result into store records.

use mindtape::eval::{Datetime, EvalResult, Task};
use mindtape::store::{to_store_records, PropertyKind};

fn date(y: i32, m: u8, d: u8) -> Datetime {
    Datetime { year: Some(y), month: Some(m), day: Some(d) }
}

fn task(title: &str, id: Option<&str>, position: u32) -> Task {
    Task {
        title: title.to_string(),
        done: false,
        due: None,
        start: None,
        rank: None,
        tags: vec![],
        id: id.map(|s| s.to_string()),
        position,
        milestone: None,
    }
}

#[test]
fn sqlite_tests_to_store_records_converts_tags_and_due() {
    let eval_result = EvalResult {
        tasks: vec![Task {
            title: "Test".to_string(),
            done: false,
            due: Some(date(2026, 3, 1)),
            start: None,
            rank: None,
            tags: vec!["work".to_string(), "urgent".to_string()],
            id: Some("019c5b9b-7317-77b1-bf52-ce7a298cfcad".to_string()),
            position: 0,
            milestone: Some("Heading".to_string()),
        }],
        title: Some("Heading".to_string()),
        bindings: vec![("note".to_string(), "string".to_string(), "\"hi\"".to_string())],
        dependencies: vec![],
    };

    let (tf, tasks, props, bindings) = to_store_records(&eval_result, "test.typ", "hash", None);

    assert_eq!(tf.file_path, "test.typ".to_string());
    assert_eq!(tf.title, Some("Heading".to_string()));
    assert_eq!(tasks.len(), 1);
    assert_eq!(tasks[0].title, "Test");
    assert_eq!(tasks[0].due, Some("2026-03-01".to_string()));
    assert_eq!(tasks[0].task_id, Some("019c5b9b-7317-77b1-bf52-ce7a298cfcad".to_string()));
    assert_eq!(props.len(), 1);
    assert_eq!(props[0].len(), 4); // 1 id + 1 due + 2 tags
    assert_eq!(props[0][0].kind, PropertyKind::Id);
    assert_eq!(props[0][0].value, "019c5b9b-7317-77b1-bf52-ce7a298cfcad");
    assert_eq!(props[0][1].kind, PropertyKind::Due);
    assert_eq!(props[0][1].value, "2026-03-01");
    assert_eq!(props[0][2].kind, PropertyKind::Tag);
    assert_eq!(props[0][2].value, "work");
    assert_eq!(bindings.len(), 1);
    assert_eq!(bindings[0].name, "note");
}

#[test]
fn records_skip_tasks_without_valid_v7_id() {
    let eval_result = EvalResult {
        tasks: vec![
            task("Has id", Some("019c5b9b-7317-77b1-bf52-ce7a298cfcad"), 0),
            task("No id", None, 1),
            task("Not a uuid", Some("not-a-uuid"), 2),
            task("UUIDv4", Some("550e8400-e29b-41d4-a716-446655440000"), 3),
        ],
        title: None,
        bindings: vec![],
        dependencies: vec![],
    };
    let (tf, tasks, props, bindings) =
        to_store_records(&eval_result, "notes/a.typ", "abc", Some("/home/me/notes"));
    assert_eq!(tf.watch_root, Some("/home/me/notes".to_string()));
    assert_eq!(tf.eval_hash, "abc");
    assert_eq!(tasks.len(), 1);
    assert_eq!(tasks[0].title, "Has id");
    assert_eq!(tasks[0].position, 0);
    assert_eq!(props.len(), 1);
    assert_eq!(props[0].len(), 1);
    assert!(bindings.is_empty());
}

#[test]
fn records_keep_start_rank_and_canonical_id() {
    let mut t = task("Ranked", Some("019c5b9b-7317-77b1-bf52-ce7a298cfcad"), 5);
    t.start = Some(date(2026, 1, 2));
    t.rank = Some(-3);
    t.done = true;
    let eval_result = EvalResult { tasks: vec![t], title: None, bindings: vec![], dependencies: vec![] };
    let (_, tasks, props, _) = to_store_records(&eval_result, "a.typ", "h", None);
    assert_eq!(tasks[0].start, Some("2026-01-02".to_string()));
    assert_eq!(tasks[0].rank, Some(-3));
    assert_eq!(tasks[0].position, 5);
    assert!(tasks[0].is_done);
    let kinds: Vec<PropertyKind> = props[0].iter().map(|p| p.kind).collect();
    assert_eq!(kinds, vec![PropertyKind::Id, PropertyKind::Start, PropertyKind::Rank]);
    assert_eq!(props[0][2].value, "-3");
}
