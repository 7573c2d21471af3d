//! Tests of the agenda's helpers.

use mindtape::cli::commands::agenda::{expand_filter, parse_sort_spec, task_key};
use mindtape::store::{SortDir, SortField, TaskView};

fn s(val: &str) -> String {
    val.to_string()
}

#[test]
fn expand_filter_replaces_today() {
    let result = expand_filter(Some("due < \"$today\""), "2026-03-16");
    assert_eq!(result.unwrap(), "due < \"2026-03-16\"");
}

#[test]
fn expand_filter_none_passthrough() {
    assert!(expand_filter(None, "2026-03-16").is_none());
}

#[test]
fn expand_filter_no_placeholder() {
    let result = expand_filter(Some("rank >= 100"), "2026-03-16");
    assert_eq!(result.unwrap(), "rank >= 100");
}

#[test]
fn dedup_excludes_seen_tasks() {
    let task = TaskView {
        title: "Buy milk".to_string(),
        is_done: false,
        position: 0,
        file_path: s("todo.typ"),
        file_title: None,
        due: None,
        start: None,
        rank: None,
        task_id: None,
        tags: vec![],
        milestone: None,
        watch_root: None,
    };
    let key = task_key(&task);
    let mut seen = Vec::new();
    seen.push(key.clone());
    assert!(seen.contains(&task_key(&task)));
}

#[test]
fn parse_sort_spec_basic() {
    let spec = parse_sort_spec("due:asc").unwrap();
    assert_eq!(spec.field, SortField::Due);
    assert_eq!(spec.dir, SortDir::Asc);
}

#[test]
fn parse_sort_spec_desc() {
    let spec = parse_sort_spec("rank:desc").unwrap();
    assert_eq!(spec.field, SortField::Rank);
    assert_eq!(spec.dir, SortDir::Desc);
}

#[test]
fn parse_sort_spec_default_asc() {
    let spec = parse_sort_spec("title").unwrap();
    assert_eq!(spec.field, SortField::Title);
    assert_eq!(spec.dir, SortDir::Asc);
}

#[test]
fn parse_sort_spec_invalid_field() {
    assert!(parse_sort_spec("invalid").is_err());
}
