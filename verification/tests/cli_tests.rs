//! Tests of the plain command-line parser and the text formatters.

use mindtape::cli::args::{parse_args, Command};
use mindtape::cli::format::{format_file_view, format_stats, format_task_view};
use mindtape::eval::{due_sort_key, filter_and_sort, format_due, format_task, Datetime, Task};
use mindtape::index::TaskView;
use mindtape::store::{FileView, IndexStats};

fn s(val: &str) -> String {
    val.to_string()
}

fn make_task(title: &str, done: bool, due: Option<Datetime>) -> Task {
    Task {
        title: title.to_string(),
        done,
        due,
        start: None,
        rank: None,
        tags: vec![],
        id: None,
        position: 0,
        milestone: None,
    }
}

fn ymd(year: i32, month: u8, day: u8) -> Datetime {
    Datetime { year: Some(year), month: Some(month), day: Some(day) }
}

// --- parse_args: eval (backwards compat) ---

#[test]
fn parse_args_file_only() {
    let cmd = parse_args(&vec![s("foo.typ")]).unwrap();
    let Command::Eval(args) = cmd else { panic!("expected Eval") };
    assert_eq!(args.file, s("foo.typ"));
    assert!(!args.due);
    assert_eq!(args.limit, None);
}

#[test]
fn parse_args_with_due() {
    let cmd = parse_args(&vec![s("f.typ"), s("--due")]).unwrap();
    let Command::Eval(args) = cmd else { panic!("expected Eval") };
    assert!(args.due);
}

#[test]
fn parse_args_with_limit() {
    let cmd = parse_args(&vec![s("f.typ"), s("-3")]).unwrap();
    let Command::Eval(args) = cmd else { panic!("expected Eval") };
    assert_eq!(args.limit, Some(3));
}

#[test]
fn parse_args_all_flags() {
    let cmd = parse_args(&vec![s("f.typ"), s("--due"), s("-5")]).unwrap();
    let Command::Eval(args) = cmd else { panic!("expected Eval") };
    assert_eq!(args.file, s("f.typ"));
    assert!(args.due);
    assert_eq!(args.limit, Some(5));
}

#[test]
fn parse_args_no_file() {
    assert!(parse_args(&vec![s("--due")]).is_err());
}

#[test]
fn parse_args_empty() {
    assert!(parse_args(&vec![]).is_err());
}

// --- parse_args: watch ---

#[test]
fn cli_parse_watch_bare() {
    let cmd = parse_args(&vec![s("watch")]).unwrap();
    let Command::Watch(args) = cmd else { panic!("expected Watch") };
    assert_eq!(args.path, None);
    assert_eq!(args.config, None);
}

#[test]
fn parse_watch_with_path() {
    let cmd = parse_args(&vec![s("watch"), s(".")]).unwrap();
    let Command::Watch(args) = cmd else { panic!("expected Watch") };
    assert_eq!(args.path, Some(s(".")));
}

#[test]
fn parse_watch_with_config() {
    let cmd = parse_args(&vec![s("watch"), s("--config"), s("my.toml")]).unwrap();
    let Command::Watch(args) = cmd else { panic!("expected Watch") };
    assert_eq!(args.config, Some(s("my.toml")));
    assert_eq!(args.path, None);
}

#[test]
fn parse_watch_config_missing_value() {
    let result = parse_args(&vec![s("watch"), s("--config")]);
    assert!(result.is_err());
}

#[test]
fn parse_watch_unknown_flag() {
    let result = parse_args(&vec![s("watch"), s("--verbose")]);
    assert!(result.is_err());
}

// --- format_due ---

#[test]
fn cli_format_due_normal() {
    assert_eq!(format_due(&ymd(2026, 3, 15)), "2026-03-15");
}

#[test]
fn cli_format_due_zero_padded() {
    assert_eq!(format_due(&ymd(2026, 1, 5)), "2026-01-05");
}

// --- due_sort_key ---

#[test]
fn cli_due_sort_key_extracts_components() {
    assert_eq!(due_sort_key(&ymd(2026, 3, 1)), (2026, 3, 1));
}

// --- format_task ---

#[test]
fn cli_format_task_with_due() {
    let task = make_task("Buy milk", false, Some(ymd(2026, 3, 1)));
    assert_eq!(format_task(&task), "- (due 2026-03-01) Buy milk");
}

#[test]
fn cli_format_task_without_due() {
    let task = make_task("Buy milk", false, None);
    assert_eq!(format_task(&task), "- Buy milk");
}

// --- filter_and_sort ---

#[test]
fn cli_filter_and_sort_removes_done() {
    let tasks = vec![
        make_task("a", false, None),
        make_task("b", true, None),
        make_task("c", false, None),
    ];
    let result = filter_and_sort(tasks, false, None);
    assert_eq!(result.len(), 2);
    assert_eq!(result[0].title, "a");
    assert_eq!(result[1].title, "c");
}

#[test]
fn cli_filter_and_sort_due_only() {
    let tasks = vec![
        make_task("a", false, Some(ymd(2026, 3, 1))),
        make_task("b", false, None),
        make_task("c", false, Some(ymd(2026, 1, 1))),
    ];
    let result = filter_and_sort(tasks, true, None);
    assert_eq!(result.len(), 2);
    // Should also sort by due date ascending
    assert_eq!(result[0].title, "c");
    assert_eq!(result[1].title, "a");
}

#[test]
fn cli_filter_and_sort_sorts_by_due() {
    let tasks = vec![
        make_task("later", false, Some(ymd(2026, 6, 1))),
        make_task("sooner", false, Some(ymd(2026, 2, 1))),
        make_task("middle", false, Some(ymd(2026, 4, 1))),
    ];
    let result = filter_and_sort(tasks, true, None);
    assert_eq!(result[0].title, "sooner");
    assert_eq!(result[1].title, "middle");
    assert_eq!(result[2].title, "later");
}

#[test]
fn cli_filter_and_sort_with_limit() {
    let tasks = vec![
        make_task("a", false, None),
        make_task("b", false, None),
        make_task("c", false, None),
    ];
    let result = filter_and_sort(tasks, false, Some(1));
    assert_eq!(result.len(), 1);
    assert_eq!(result[0].title, "a");
}

#[test]
fn cli_filter_and_sort_limit_none_returns_all() {
    let tasks = vec![
        make_task("a", false, None),
        make_task("b", false, None),
    ];
    let result = filter_and_sort(tasks, false, None);
    assert_eq!(result.len(), 2);
}

// --- parse_args: list ---

#[test]
fn cli_parse_list_bare() {
    let cmd = parse_args(&vec![s("list")]).unwrap();
    let Command::List(args) = cmd else { panic!("expected List") };
    assert_eq!(args.done, None);
    assert!(!args.status_all);
    assert_eq!(args.tag, None);
    assert_eq!(args.limit, None);
    assert_eq!(args.db, None);
}

#[test]
fn parse_list_status_done() {
    let cmd = parse_args(&vec![s("list"), s("--status"), s("done")]).unwrap();
    let Command::List(args) = cmd else { panic!("expected List") };
    assert_eq!(args.done, Some(true));
}

#[test]
fn parse_list_status_pending() {
    let cmd = parse_args(&vec![s("list"), s("--status"), s("pending")]).unwrap();
    let Command::List(args) = cmd else { panic!("expected List") };
    assert_eq!(args.done, Some(false));
}

#[test]
fn parse_list_status_all() {
    let cmd = parse_args(&vec![s("list"), s("--status"), s("all")]).unwrap();
    let Command::List(args) = cmd else { panic!("expected List") };
    assert!(args.status_all);
}

#[test]
fn parse_list_status_invalid() {
    let result = parse_args(&vec![s("list"), s("--status"), s("xyz")]);
    assert!(result.is_err());
}

#[test]
fn parse_list_with_tag() {
    let cmd = parse_args(&vec![s("list"), s("--tag"), s("work")]).unwrap();
    let Command::List(args) = cmd else { panic!("expected List") };
    assert_eq!(args.tag, Some("work".to_string()));
}

#[test]
fn parse_list_with_due_before() {
    let cmd = parse_args(&vec![s("list"), s("--due-before"), s("2026-03-01")]).unwrap();
    let Command::List(args) = cmd else { panic!("expected List") };
    assert_eq!(args.due_before, Some("2026-03-01".to_string()));
}

#[test]
fn parse_list_with_file() {
    let cmd = parse_args(&vec![s("list"), s("--file"), s("todo.typ")]).unwrap();
    let Command::List(args) = cmd else { panic!("expected List") };
    assert_eq!(args.file, Some(s("todo.typ")));
}

#[test]
fn parse_list_with_folder() {
    let cmd = parse_args(&vec![s("list"), s("--folder"), s("notes/")]).unwrap();
    let Command::List(args) = cmd else { panic!("expected List") };
    assert_eq!(args.folder, Some(s("notes/")));
}

#[test]
fn parse_list_with_limit() {
    let cmd = parse_args(&vec![s("list"), s("-5")]).unwrap();
    let Command::List(args) = cmd else { panic!("expected List") };
    assert_eq!(args.limit, Some(5));
}

#[test]
fn parse_list_with_db() {
    let cmd = parse_args(&vec![s("list"), s("--db"), s("/tmp/test.db")]).unwrap();
    let Command::List(args) = cmd else { panic!("expected List") };
    assert_eq!(args.db, Some(s("/tmp/test.db")));
}

#[test]
fn parse_list_all_flags() {
    let cmd = parse_args(&vec![
        s("list"), s("--status"), s("done"), s("--tag"), s("work"),
        s("--due-before"), s("2026-03-01"), s("--file"), s("t.typ"),
        s("-3"), s("--db"), s("x.db"),
    ]).unwrap();
    let Command::List(args) = cmd else { panic!("expected List") };
    assert_eq!(args.done, Some(true));
    assert_eq!(args.tag, Some("work".to_string()));
    assert_eq!(args.due_before, Some("2026-03-01".to_string()));
    assert_eq!(args.file, Some(s("t.typ")));
    assert_eq!(args.limit, Some(3));
    assert_eq!(args.db, Some(s("x.db")));
}

#[test]
fn parse_list_unknown_flag() {
    let result = parse_args(&vec![s("list"), s("--verbose")]);
    assert!(result.is_err());
}

#[test]
fn parse_list_missing_tag_value() {
    let result = parse_args(&vec![s("list"), s("--tag")]);
    assert!(result.is_err());
}

// --- parse_args: status / files ---

#[test]
fn parse_status_bare() {
    let cmd = parse_args(&vec![s("status")]).unwrap();
    let Command::Status(args) = cmd else { panic!("expected Status") };
    assert_eq!(args.db, None);
}

#[test]
fn parse_status_with_db() {
    let cmd = parse_args(&vec![s("status"), s("--db"), s("x.db")]).unwrap();
    let Command::Status(args) = cmd else { panic!("expected Status") };
    assert_eq!(args.db, Some(s("x.db")));
}

#[test]
fn parse_files_bare() {
    let cmd = parse_args(&vec![s("files")]).unwrap();
    let Command::Files(args) = cmd else { panic!("expected Files") };
    assert_eq!(args.db, None);
}

#[test]
fn parse_files_with_db() {
    let cmd = parse_args(&vec![s("files"), s("--db"), s("x.db")]).unwrap();
    let Command::Files(args) = cmd else { panic!("expected Files") };
    assert_eq!(args.db, Some(s("x.db")));
}

#[test]
fn parse_status_unknown_flag() {
    let result = parse_args(&vec![s("status"), s("--verbose")]);
    assert!(result.is_err());
}

// --- --json flag ---

#[test]
fn parse_list_with_json() {
    let cmd = parse_args(&vec![s("list"), s("--json")]).unwrap();
    let Command::List(args) = cmd else { panic!("expected List") };
    assert!(args.json);
}

#[test]
fn parse_list_without_json() {
    let cmd = parse_args(&vec![s("list")]).unwrap();
    let Command::List(args) = cmd else { panic!("expected List") };
    assert!(!args.json);
}

#[test]
fn parse_status_with_json() {
    let cmd = parse_args(&vec![s("status"), s("--json")]).unwrap();
    let Command::Status(args) = cmd else { panic!("expected Status") };
    assert!(args.json);
}

#[test]
fn parse_files_with_json() {
    let cmd = parse_args(&vec![s("files"), s("--json")]).unwrap();
    let Command::Files(args) = cmd else { panic!("expected Files") };
    assert!(args.json);
}

// --- format_task_view ---

#[test]
fn format_task_view_pending_with_due() {
    let task = TaskView {
        title: "Buy milk".to_string(),
        is_done: false,
        position: 0,
        file_path: s("todo.typ"),
        file_title: None,
        due: Some("2026-03-01".to_string()),
        tags: vec![],
    };
    assert_eq!(format_task_view(&task), "- [ ] (due 2026-03-01) Buy milk");
}

#[test]
fn format_task_view_done_no_due() {
    let task = TaskView {
        title: "Done thing".to_string(),
        is_done: true,
        position: 0,
        file_path: s("todo.typ"),
        file_title: None,
        due: None,
        tags: vec![],
    };
    assert_eq!(format_task_view(&task), "- [x] Done thing");
}

#[test]
fn format_task_view_with_tags() {
    let task = TaskView {
        title: "Task".to_string(),
        is_done: false,
        position: 0,
        file_path: s("t.typ"),
        file_title: None,
        due: None,
        tags: vec!["work".to_string(), "urgent".to_string()],
    };
    assert_eq!(format_task_view(&task), "- [ ] Task [work, urgent]");
}

// --- format_file_view ---

#[test]
fn cli_format_file_view_with_title() {
    let file = FileView {
        file_path: s("notes/todo.typ"),
        watch_root: None,
        title: Some("My Tasks".to_string()),
        task_count: 5,
        updated_at: "2026-01-01".to_string(),
    };
    assert_eq!(format_file_view(&file), "notes/todo.typ (5 tasks)  My Tasks");
}

#[test]
fn cli_format_file_view_no_title_singular() {
    let file = FileView {
        file_path: s("t.typ"),
        watch_root: None,
        title: None,
        task_count: 1,
        updated_at: "2026-01-01".to_string(),
    };
    assert_eq!(format_file_view(&file), "t.typ (1 task)");
}

// --- format_stats ---

#[test]
fn cli_format_stats_with_data() {
    let stats = IndexStats {
        file_count: 3,
        task_count: 10,
        done_count: 4,
        pending_count: 6,
        last_updated: Some("2026-01-15 12:00:00".to_string()),
    };
    let output = format_stats(&stats);
    assert!(output.contains("files:   3"));
    assert!(output.contains("tasks:   10 (6 pending, 4 done)"));
    assert!(output.contains("updated: 2026-01-15 12:00:00"));
}

#[test]
fn cli_format_stats_empty() {
    let stats = IndexStats {
        file_count: 0,
        task_count: 0,
        done_count: 0,
        pending_count: 0,
        last_updated: None,
    };
    let output = format_stats(&stats);
    assert!(output.contains("files:   0"));
    assert!(!output.contains("updated:"));
}
