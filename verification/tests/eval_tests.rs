//! Tests of the task selection and formatting of the `eval` command.

use mindtape::eval::{
    due_sort_key, extract_task, filter_and_sort, format_due, format_task, Datetime, MetaEntry,
    MetaValue, Task,
};

fn make_task(title: &str, done: bool, due: Option<Datetime>) -> Task {
    Task {
        title: title.to_string(),
        done,
        due,
        start: None,
        rank: None,
        tags: vec![],
        id: None,
        position: 0,
        milestone: None,
    }
}

fn ymd(year: i32, month: u8, day: u8) -> Datetime {
    Datetime { year: Some(year), month: Some(month), day: Some(day) }
}

#[test]
fn eval_format_due_normal() {
    assert_eq!(format_due(&ymd(2026, 3, 15)), "2026-03-15");
}

#[test]
fn eval_format_due_zero_padded() {
    assert_eq!(format_due(&ymd(2026, 1, 5)), "2026-01-05");
}

#[test]
fn eval_due_sort_key_extracts_components() {
    assert_eq!(due_sort_key(&ymd(2026, 3, 1)), (2026, 3, 1));
}

#[test]
fn eval_format_task_with_due() {
    let task = make_task("Buy milk", false, Some(ymd(2026, 3, 1)));
    assert_eq!(format_task(&task), "- (due 2026-03-01) Buy milk");
}

#[test]
fn eval_format_task_without_due() {
    let task = make_task("Buy milk", false, None);
    assert_eq!(format_task(&task), "- Buy milk");
}

#[test]
fn eval_filter_and_sort_removes_done() {
    let tasks = vec![
        make_task("a", false, None),
        make_task("b", true, None),
        make_task("c", false, None),
    ];
    let result = filter_and_sort(tasks, false, None);
    assert_eq!(result.len(), 2);
    assert_eq!(result[0].title, "a");
    assert_eq!(result[1].title, "c");
}

#[test]
fn eval_filter_and_sort_due_only() {
    let tasks = vec![
        make_task("a", false, Some(ymd(2026, 3, 1))),
        make_task("b", false, None),
        make_task("c", false, Some(ymd(2026, 1, 1))),
    ];
    let result = filter_and_sort(tasks, true, None);
    assert_eq!(result.len(), 2);
    assert_eq!(result[0].title, "c");
    assert_eq!(result[1].title, "a");
}

#[test]
fn eval_filter_and_sort_sorts_by_due() {
    let tasks = vec![
        make_task("later", false, Some(ymd(2026, 6, 1))),
        make_task("sooner", false, Some(ymd(2026, 2, 1))),
        make_task("middle", false, Some(ymd(2026, 4, 1))),
    ];
    let result = filter_and_sort(tasks, true, None);
    assert_eq!(result[0].title, "sooner");
    assert_eq!(result[1].title, "middle");
    assert_eq!(result[2].title, "later");
}

#[test]
fn eval_filter_and_sort_with_limit() {
    let tasks = vec![
        make_task("a", false, None),
        make_task("b", false, None),
        make_task("c", false, None),
    ];
    let result = filter_and_sort(tasks, false, Some(1));
    assert_eq!(result.len(), 1);
    assert_eq!(result[0].title, "a");
}

#[test]
fn eval_filter_and_sort_limit_none_returns_all() {
    let tasks = vec![make_task("a", false, None), make_task("b", false, None)];
    let result = filter_and_sort(tasks, false, None);
    assert_eq!(result.len(), 2);
}

#[test]
fn extract_task_reads_id_start_rank_and_tags() {
    let d = |day: u8| Datetime { year: Some(2026), month: Some(4), day: Some(day) };
    let meta = vec![
        MetaEntry { key: "due".to_string(), value: MetaValue::Datetime(d(1)) },
        MetaEntry { key: "start".to_string(), value: MetaValue::Datetime(d(2)) },
        MetaEntry { key: "rank".to_string(), value: MetaValue::Int(7) },
        MetaEntry { key: "tag".to_string(), value: MetaValue::Str("work".to_string()) },
        MetaEntry { key: "id".to_string(), value: MetaValue::Str("019c5b9b-7317-77b1-bf52-ce7a298cfcad".to_string()) },
        MetaEntry { key: "rank".to_string(), value: MetaValue::Str("high".to_string()) },
    ];
    let t = extract_task("[x] Ship it ", &meta).unwrap();
    assert_eq!(t.title, "Ship it");
    assert!(t.done);
    assert_eq!(t.due, Some(d(1)));
    assert_eq!(t.start, Some(d(2)));
    assert_eq!(t.rank, Some(7));
    assert_eq!(t.tags, vec!["work".to_string()]);
    assert_eq!(t.id, Some("019c5b9b-7317-77b1-bf52-ce7a298cfcad".to_string()));
    assert_eq!(t.milestone, None);
    assert!(extract_task("No box", &meta).is_none());
}
