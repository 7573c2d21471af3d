//! Tests of the output formatters: plain lines, CSV and Typst.

use mindtape::cli::format::{
    date_to_typst_call, format_file_view, format_files_csv, format_stats, format_stats_csv,
    format_task_typst, format_tasks_csv,
};
use mindtape::store::{FileView, IndexStats, TaskView};

fn s(val: &str) -> String {
    val.to_string()
}

// --- format_file_view ---

#[test]
fn format_format_file_view_with_title() {
    let file = FileView {
        file_path: s("notes/todo.typ"),
        watch_root: None,
        title: Some("My Tasks".to_string()),
        task_count: 5,
        updated_at: "2026-01-01".to_string(),
    };
    assert_eq!(
        format_file_view(&file),
        "notes/todo.typ (5 tasks)  My Tasks"
    );
}

#[test]
fn format_format_file_view_no_title_singular() {
    let file = FileView {
        file_path: s("t.typ"),
        watch_root: None,
        title: None,
        task_count: 1,
        updated_at: "2026-01-01".to_string(),
    };
    assert_eq!(format_file_view(&file), "t.typ (1 task)");
}

// --- format_stats ---

#[test]
fn format_format_stats_with_data() {
    let stats = IndexStats {
        file_count: 3,
        task_count: 10,
        done_count: 4,
        pending_count: 6,
        last_updated: Some("2026-01-15 12:00:00".to_string()),
    };
    let output = format_stats(&stats);
    assert!(output.contains("files:   3"));
    assert!(output.contains("tasks:   10 (6 pending, 4 done)"));
    assert!(output.contains("updated: 2026-01-15 12:00:00"));
}

#[test]
fn format_format_stats_empty() {
    let stats = IndexStats {
        file_count: 0,
        task_count: 0,
        done_count: 0,
        pending_count: 0,
        last_updated: None,
    };
    let output = format_stats(&stats);
    assert!(output.contains("files:   0"));
    assert!(!output.contains("updated:"));
}

// --- CSV formatters ---

#[test]
fn format_tasks_csv_basic() {
    let tasks = vec![TaskView {
        title: "Buy milk".to_string(),
        is_done: false,
        position: 0,
        file_path: s("todo.typ"),
        file_title: None,
        due: Some("2026-03-01".to_string()),
        start: None,
        rank: None,
        task_id: None,
        tags: vec!["shop".to_string()],
        milestone: None,
        watch_root: None,
    }];
    let csv = format_tasks_csv(&tasks).unwrap();
    assert!(csv.starts_with("status,due,start,rank,title,file,tags\n"));
    assert!(csv.contains("pending,2026-03-01,,,Buy milk,todo.typ,shop\n"));
}

#[test]
fn format_tasks_csv_escapes_commas() {
    let tasks = vec![TaskView {
        title: "Buy eggs, milk".to_string(),
        is_done: true,
        position: 0,
        file_path: s("t.typ"),
        file_title: None,
        due: None,
        start: None,
        rank: None,
        task_id: None,
        tags: vec![],
        milestone: None,
        watch_root: None,
    }];
    let csv = format_tasks_csv(&tasks).unwrap();
    assert!(csv.contains("done,,,,\"Buy eggs, milk\",t.typ,\n"));
}

#[test]
fn format_files_csv_basic() {
    let files = vec![FileView {
        file_path: s("notes/todo.typ"),
        watch_root: None,
        title: Some("My Tasks".to_string()),
        task_count: 5,
        updated_at: "2026-01-01".to_string(),
    }];
    let csv = format_files_csv(&files).unwrap();
    assert!(csv.starts_with("path,title,tasks,updated_at\n"));
    assert!(csv.contains("notes/todo.typ,My Tasks,5,2026-01-01\n"));
}

#[test]
fn format_stats_csv_basic() {
    let stats = IndexStats {
        file_count: 3,
        task_count: 10,
        done_count: 4,
        pending_count: 6,
        last_updated: Some("2026-01-15".to_string()),
    };
    let csv = format_stats_csv(&stats).unwrap();
    assert!(csv.starts_with("metric,value\n"));
    assert!(csv.contains("files,3\n"));
    assert!(csv.contains("tasks,10\n"));
    assert!(csv.contains("done,4\n"));
    assert!(csv.contains("pending,6\n"));
    assert!(csv.contains("last_updated,2026-01-15\n"));
}

// --- format_task_typst ---

#[test]
fn typst_pending_with_due() {
    let task = TaskView {
        title: "Buy milk".to_string(),
        is_done: false,
        position: 0,
        file_path: s("todo.typ"),
        file_title: None,
        due: Some("2026-03-01".to_string()),
        start: None,
        rank: None,
        task_id: None,
        tags: vec![],
        milestone: None,
        watch_root: None,
    };
    assert_eq!(format_task_typst(&task), "- [ ] Buy milk #due(2026, 3, 1)");
}

#[test]
fn typst_done_no_metadata() {
    let task = TaskView {
        title: "Done thing".to_string(),
        is_done: true,
        position: 0,
        file_path: s("todo.typ"),
        file_title: None,
        due: None,
        start: None,
        rank: None,
        task_id: None,
        tags: vec![],
        milestone: None,
        watch_root: None,
    };
    assert_eq!(format_task_typst(&task), "- [x] Done thing");
}

#[test]
fn typst_rank_aliases() {
    let make = |rank| TaskView {
        title: "T".to_string(),
        is_done: false,
        position: 0,
        file_path: s("t.typ"),
        file_title: None,
        due: None,
        start: None,
        rank: Some(rank),
        task_id: None,
        tags: vec![],
        milestone: None,
        watch_root: None,
    };
    assert_eq!(format_task_typst(&make(100)), "- [ ] T #high");
    assert_eq!(format_task_typst(&make(50)), "- [ ] T #medium");
    assert_eq!(format_task_typst(&make(10)), "- [ ] T #low");
    assert_eq!(format_task_typst(&make(75)), "- [ ] T #rank(75)");
}

#[test]
fn typst_full_metadata() {
    let task = TaskView {
        title: "Full task".to_string(),
        is_done: false,
        position: 0,
        file_path: s("t.typ"),
        file_title: None,
        due: Some("2026-04-01".to_string()),
        start: Some("2026-03-01".to_string()),
        rank: Some(100),
        task_id: Some("abc-123".to_string()),
        tags: vec!["work".to_string()],
        milestone: None,
        watch_root: None,
    };
    assert_eq!(
        format_task_typst(&task),
        "- [ ] Full task #due(2026, 4, 1) #start(2026, 3, 1) #high #tag(\"work\") #id(\"abc-123\")"
    );
}

// --- date_to_typst_call ---

#[test]
fn date_to_typst_strips_leading_zeros() {
    assert_eq!(
        date_to_typst_call("due", "2026-05-09").unwrap(),
        "#due(2026, 5, 9)"
    );
}

#[test]
fn date_to_typst_no_leading_zeros() {
    assert_eq!(
        date_to_typst_call("start", "2026-12-25").unwrap(),
        "#start(2026, 12, 25)"
    );
}

#[test]
fn date_to_typst_invalid_returns_none() {
    assert!(date_to_typst_call("due", "invalid").is_none());
    assert!(date_to_typst_call("due", "2026-03").is_none());
}
