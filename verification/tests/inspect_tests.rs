//! Tests of the `inspect` sections.

use mindtape::cli::commands::inspect::{
    build_deps_table, build_errors_table, build_files_table, format_errors_typst,
};
use mindtape::store::{FileDependencies, FileError, FileView};

fn s(val: &str) -> String {
    val.to_string()
}

#[test]
fn files_table_renders() {
    let files = vec![FileView {
        file_path: s("notes/todo.typ"),
        watch_root: None,
        title: Some("My Tasks".to_string()),
        task_count: 5,
        updated_at: "2026-01-01".to_string(),
    }];
    let out = build_files_table(&files, "/nonexistent");
    assert!(out.contains("notes/todo.typ"));
    assert!(out.contains("5"));
    assert!(out.contains("My Tasks"));
    assert!(out.contains("Path"));
}

#[test]
fn files_table_shortens_home() {
    let files = vec![FileView {
        file_path: s("/home/user/notes/todo.typ"),
        watch_root: None,
        title: None,
        task_count: 1,
        updated_at: "2026-01-01".to_string(),
    }];
    let out = build_files_table(&files, "/home/user");
    assert!(out.contains("~/notes/todo.typ"));
    assert!(!out.contains("/home/user"));
}

#[test]
fn deps_table_renders() {
    let deps = vec![FileDependencies {
        file_path: s("a.typ"),
        file_title: Some("File A".to_string()),
        imports: vec![s("b.typ")],
        imported_by: vec![],
    }];
    let out = build_deps_table(&deps, "");
    assert!(out.contains("a.typ"));
    assert!(out.contains("File A"));
    assert!(out.contains("1"));
}

#[test]
fn errors_table_renders() {
    let errors = vec![FileError {
        file_path: s("/home/user/broken.typ"),
        watch_root: None,
        error: "eval error: undefined variable".to_string(),
        updated_at: "2026-03-01".to_string(),
    }];
    let out = build_errors_table(&errors, "/home/user");
    assert!(out.contains("~/broken.typ"));
    assert!(out.contains("eval error: undefined variable"));
}

#[test]
fn errors_typst_format() {
    let errors = vec![FileError {
        file_path: s("/home/user/pad/notes/preorders.typ"),
        watch_root: None,
        error: "eval error: undefined variable".to_string(),
        updated_at: "2026-03-01".to_string(),
    }];
    let out = format_errors_typst(&errors, "/home/user");
    assert!(out.contains("- `~/pad/notes/preorders.typ`"));
    assert!(out.contains("  ```"));
    assert!(out.contains("  eval error: undefined variable"));
}
