//! Tests of the Typst listing of tasks.

use mindtape::cli::commands::list::format_typst_list;
use mindtape::store::TaskView;

/// A home directory that no task path lies under.
const NO_HOME: &str = "/nonexistent";

fn make_task(title: &str, file: &str, watch_root: Option<&str>) -> TaskView {
    TaskView {
        title: title.to_string(),
        is_done: false,
        position: 0,
        file_path: file.to_string(),
        file_title: None,
        due: None,
        start: None,
        rank: None,
        tags: vec![],
        task_id: None,
        milestone: None,
        watch_root: watch_root.map(|s| s.to_string()),
    }
}

#[test]
fn heading_offset_shifts_all_levels() {
    let tasks = vec![make_task("Buy milk", "/projects/myapp/todo.typ", Some("/projects/myapp"))];
    let out_0 = format_typst_list(&tasks, 0, NO_HOME);
    let out_2 = format_typst_list(&tasks, 2, NO_HOME);

    // With offset 0: root == (2), file === (3).
    assert!(out_0.contains("== myapp\n"));
    assert!(out_0.contains("=== "));

    // With offset 2: root ==== (4), file ===== (5).
    assert!(out_2.contains("==== myapp\n"));
    assert!(out_2.contains("===== "));

    // Offset output must not contain the unshifted (level-2) root heading.
    assert!(!out_2.starts_with("== "));
    assert!(!out_2.contains("\n== "));
}

#[test]
fn heading_offset_zero_is_default() {
    let tasks = vec![make_task("Task", "/proj/a/todo.typ", Some("/proj/a"))];
    let out = format_typst_list(&tasks, 0, NO_HOME);
    // Root heading at level 2.
    assert!(out.starts_with("== a\n"));
}

#[test]
fn heading_offset_applies_to_subdirs() {
    let tasks = vec![make_task(
        "Nested",
        "/proj/root/sub/deep/todo.typ",
        Some("/proj/root"),
    )];
    let out_0 = format_typst_list(&tasks, 0, NO_HOME);
    let out_1 = format_typst_list(&tasks, 1, NO_HOME);

    // offset 0: root == (2), dir "sub" === (3), dir "deep" ==== (4), file ===== (5).
    assert!(out_0.contains("=== sub\n"));
    assert!(out_0.contains("==== deep\n"));

    // offset 1: root === (3), dir "sub" ==== (4), dir "deep" ===== (5), file ====== (6).
    assert!(out_1.contains("=== root\n"));
    assert!(out_1.contains("==== sub\n"));
    assert!(out_1.contains("===== deep\n"));
}

#[test]
fn heading_offset_applies_to_milestones() {
    let mut task = make_task("Fix bug", "/proj/app/todo.typ", Some("/proj/app"));
    task.milestone = Some("Sprint 1 > Backend".to_string());
    let tasks = vec![task];

    let out_0 = format_typst_list(&tasks, 0, NO_HOME);
    let out_3 = format_typst_list(&tasks, 3, NO_HOME);

    // offset 0: milestone base = 3 + 0 + 1 = 4 (====), nested = 5 (=====).
    assert!(out_0.contains("==== Sprint 1\n"));
    assert!(out_0.contains("===== Backend\n"));

    // offset 3: milestone base = 3 + 3 + 0 + 1 = 7 (=======), nested = 8 (========).
    assert!(out_3.contains("======= Sprint 1\n"));
    assert!(out_3.contains("======== Backend\n"));
}
