//! Tests of the commands' decisions and messages, the configuration, the
//! store's queries and the indexing decisions.

use mindtape::cli::commands::agenda::{
    agenda_header, plan_section, render_errors, render_tasks, replace_str, section_done,
    section_heading, SectionPlan,
};
use mindtape::cli::commands::check::{check_message, stale_file};
use mindtape::cli::commands::init::typst_package_dir;
use mindtape::cli::commands::search::csv_escape;
use mindtape::cli::commands::set::{updated_message, SetArgs};
use mindtape::cli::commands::watch::{WatchArgs, WatchConfigSource};
use mindtape::cli::util::{missing_db, shorten_home};
use mindtape::config::{folder_config, load_and_merge, AgendaSection, Config, ConfigError, WatchEntry};
use mindtape::indexer::{
    find_project_root, hash_contents, local_dependencies, needs_indexing, RootCandidate,
};
use mindtape::store::{
    single_task, sort_spec_to_sql, stats_from_counts, task_lookup, SortDir, SortField, SortSpec,
    StoreError, TaskLookup, TaskView, TaskWithFile,
};
use mindtape::write::WriteError;

fn s(v: &str) -> String {
    v.to_string()
}

fn task(title: &str, id: Option<&str>) -> TaskView {
    TaskView {
        title: s(title),
        is_done: false,
        position: 0,
        file_path: s("/w/todo.typ"),
        file_title: None,
        due: None,
        start: None,
        rank: None,
        task_id: id.map(s),
        tags: vec![],
        milestone: None,
        watch_root: None,
    }
}

fn set_args(task_id: &str) -> SetArgs {
    SetArgs {
        task_id: s(task_id),
        due: None,
        no_due: false,
        start: None,
        no_start: false,
        rank: None,
        no_rank: false,
        add_tag: vec![],
        remove_tag: vec![],
        db: None,
    }
}

// --- set ---

#[test]
fn set_applies_changes_in_order() {
    let mut args = set_args("t1");
    args.due = Some(s("2026-04-01"));
    args.rank = Some(7);
    args.add_tag = vec![s("a"), s("b")];
    let (text, changes) =
        args.apply_mutations("- [ ] Task #tag(\"old\") #id(\"t1\")", "t1").unwrap();
    assert_eq!(
        text,
        "- [ ] Task #tag(\"old\") #due(2026, 4, 1) #rank(7) #tag(\"a\") #tag(\"b\") #id(\"t1\")"
    );
    assert_eq!(changes, vec!["due=2026-04-01", "rank=7", "+tag:a", "+tag:b"]);
    assert_eq!(updated_message("t1", &changes), "Task t1 updated: due=2026-04-01, rank=7, +tag:a, +tag:b");
}

#[test]
fn set_removals_and_no_changes() {
    let mut args = set_args("t1");
    let (text, changes) = args.apply_mutations("- [ ] T #id(\"t1\")", "t1").unwrap();
    assert_eq!(text, "- [ ] T #id(\"t1\")");
    assert!(changes.is_empty());
    args.no_due = true;
    args.no_rank = true;
    args.remove_tag = vec![s("x")];
    let (text, changes) =
        args.apply_mutations("- [ ] T #due(2026, 1, 1) #high #tag(\"x\") #id(\"t1\")", "t1").unwrap();
    assert_eq!(text, "- [ ] T #id(\"t1\")");
    assert_eq!(changes, vec!["due removed", "rank removed", "-tag:x"]);
}

#[test]
fn set_stops_at_first_failure() {
    let mut args = set_args("t1");
    args.due = Some(s("2026-02-30x"));
    args.add_tag = vec![s("a")];
    let err = args.apply_mutations("- [ ] T #id(\"t1\")", "t1").unwrap_err();
    assert_eq!(err.context, "failed to set due date");
    assert!(matches!(err.error, WriteError::InvalidDate(_)));
    let mut args = set_args("t1");
    args.no_start = true;
    let err = args.apply_mutations("- [ ] T #id(\"t1\")", "zz").unwrap_err();
    assert_eq!(err.context, "failed to remove start date");
    assert!(matches!(err.error, WriteError::TaskNotFound(_)));
}

// --- check ---

#[test]
fn check_messages() {
    let t = TaskWithFile {
        task_id: s("abc"),
        task_title: s("Buy milk"),
        is_done: false,
        file_path: s("/w/a.typ"),
        file_hash: s("h"),
    };
    assert_eq!(check_message(&t), "Task abc checked: Buy milk");
    let done = TaskWithFile { is_done: true, ..t };
    assert_eq!(check_message(&done), "Task abc unchecked: Buy milk");
    assert_eq!(
        stale_file("/w/a.typ"),
        "file /w/a.typ has changed since last index\nRun 'mindtape watch' to re-index, then try again."
    );
}

// --- agenda ---

#[test]
fn agenda_texts() {
    assert_eq!(agenda_header("0.1.0"), "#import \"@local/mindtape:0.1.0\": *\n");
    assert_eq!(section_heading("Today"), "\n== Today\n\n");
    assert_eq!(render_errors(&vec![], "/home/u"), "No errors.\n");
    assert_eq!(replace_str("a $x b $x", "$x", "1"), "a 1 b 1");
}

#[test]
fn agenda_section_status() {
    assert_eq!(section_done(None).unwrap(), Some(false));
    assert_eq!(section_done(Some("done")).unwrap(), Some(true));
    assert_eq!(section_done(Some("all")).unwrap(), None);
    assert_eq!(section_done(Some("nope")).unwrap_err(), "unknown status filter: \"nope\"");
}

fn section(kind: &str) -> AgendaSection {
    AgendaSection {
        name: s("S"),
        kind: s(kind),
        filter: Some(s("due <= \"$today\"")),
        sort: vec![s("due:asc")],
        status: None,
        limit: Some(3),
        deduplicate: None,
    }
}

#[test]
fn agenda_section_plans() {
    assert_eq!(plan_section(&section("errors"), "2026-01-01").unwrap(), SectionPlan::Errors);
    assert_eq!(
        plan_section(&section("weird"), "2026-01-01").unwrap_err(),
        "unknown agenda section kind: \"weird\""
    );
    match plan_section(&section("tasks"), "2026-01-01").unwrap() {
        SectionPlan::Tasks { filter, dedup } => {
            assert!(dedup);
            assert_eq!(filter.done, Some(false));
            assert_eq!(filter.limit, Some(3));
            assert_eq!(filter.expr, Some(s("due <= \"2026-01-01\"")));
            assert_eq!(filter.sort, vec![SortSpec { field: SortField::Due, dir: SortDir::Asc }]);
        },
        SectionPlan::Errors => panic!("expected a task section"),
    }
}

#[test]
fn agenda_dedup_leaves_out_seen_tasks() {
    let tasks = vec![task("A", Some("id-a")), task("B", None)];
    let mut seen = Vec::new();
    let first = render_tasks(&tasks, true, &mut seen);
    assert!(first.contains("A"));
    assert!(first.contains("B"));
    assert_eq!(seen.len(), 2);
    let second = render_tasks(&tasks, true, &mut seen);
    assert!(!second.contains("A"));
    let again = render_tasks(&tasks, false, &mut seen);
    assert!(again.contains("A"));
}

// --- init, util, watch, search ---

#[test]
fn package_dir_from_home_and_xdg() {
    assert_eq!(
        typst_package_dir(Some("/home/u"), None, "0.1.0").unwrap(),
        "/home/u/.local/share/typst/packages/local/mindtape/0.1.0"
    );
    assert_eq!(
        typst_package_dir(Some("/home/u"), Some("/data"), "0.1.0").unwrap(),
        "/data/typst/packages/local/mindtape/0.1.0"
    );
    assert_eq!(typst_package_dir(None, Some("/data"), "0.1.0").unwrap_err(), "HOME not set");
}

#[test]
fn util_messages() {
    assert_eq!(shorten_home("/home/u/a.typ", "/home/u"), "~/a.typ");
    assert_eq!(shorten_home("/other/a.typ", "/home/u"), "/other/a.typ");
    assert_eq!(shorten_home("/home/u/a.typ", ""), "/home/u/a.typ");
    assert_eq!(
        missing_db("x.db"),
        "database not found: x.db\nRun 'mindtape watch' first to create the index."
    );
}

#[test]
fn watch_config_sources() {
    let a = WatchArgs { path: Some(s("/w")), config: vec![s("c.toml")] };
    assert_eq!(a.config_source(), WatchConfigSource::Files);
    let b = WatchArgs { path: Some(s("/w")), config: vec![] };
    assert_eq!(b.config_source(), WatchConfigSource::Folder(s("/w")));
    let c = WatchArgs { path: None, config: vec![] };
    assert_eq!(c.config_source(), WatchConfigSource::Discover);
}

#[test]
fn csv_escape_quotes_when_needed() {
    assert_eq!(csv_escape("plain"), "plain");
    assert_eq!(csv_escape("a,b"), "\"a,b\"");
    assert_eq!(csv_escape("say \"hi\""), "\"say \"\"hi\"\"\"");
}

// --- config ---

#[test]
fn load_and_merge_stops_at_first_error() {
    let ok = Config { database: None, watch: vec![], agenda: None };
    let r = load_and_merge(vec![
        Ok(ok.clone()),
        Err(ConfigError::Parse(s("bad"))),
        Err(ConfigError::Io(s("gone"))),
    ]);
    assert_eq!(r.unwrap_err(), ConfigError::Parse(s("bad")));
    assert_eq!(ConfigError::Parse(s("bad")).message(), "parse error: bad");
}

#[test]
fn load_and_merge_merges_all() {
    let a = Config { database: None, watch: vec![WatchEntry { path: s("/a"), recursive: true }], agenda: None };
    let b = folder_config("/b");
    let merged = load_and_merge(vec![Ok(a), Ok(b)]).unwrap();
    assert_eq!(merged.watch.len(), 2);
    assert_eq!(merged.watch[1].path, "/b");
    assert!(merged.watch[1].recursive);
}

// --- store ---

#[test]
fn sort_specs_to_sql() {
    assert_eq!(
        sort_spec_to_sql(SortSpec { field: SortField::Due, dir: SortDir::Asc }),
        "t.due ASC NULLS LAST"
    );
    assert_eq!(
        sort_spec_to_sql(SortSpec { field: SortField::Title, dir: SortDir::Desc }),
        "t.title DESC"
    );
}

#[test]
fn stats_count_pending() {
    let st = stats_from_counts(2, 10, Some(3), None);
    assert_eq!(st.pending_count, 7);
    let empty = stats_from_counts(0, 0, None, None);
    assert_eq!(empty.done_count, 0);
    assert_eq!(empty.pending_count, 0);
}

#[test]
fn task_lookups() {
    assert_eq!(task_lookup("*cfcad"), TaskLookup::Like(s("%cfcad")));
    assert_eq!(
        task_lookup("019C5B9B-7317-77B1-BF52-CE7A298CFCAD"),
        TaskLookup::Exact(s("019c5b9b-7317-77b1-bf52-ce7a298cfcad"))
    );
    assert_eq!(task_lookup("garbage"), TaskLookup::Exact(s("garbage")));
    assert_eq!(task_lookup("garbage").param(), "garbage");
}

#[test]
fn single_task_errors() {
    let t = TaskWithFile {
        task_id: s("a"),
        task_title: s("T"),
        is_done: false,
        file_path: s("/f"),
        file_hash: s("h"),
    };
    assert_eq!(single_task(vec![t.clone()], "a").unwrap(), t);
    assert_eq!(single_task(vec![], "a").unwrap_err(), StoreError::Path(s("task not found: a")));
    let e = single_task(vec![t.clone(), t], "*a").unwrap_err();
    assert_eq!(e, StoreError::Path(s("ambiguous task ID pattern '*a': matched 2 tasks")));
    assert_eq!(e.message(), "path error: ambiguous task ID pattern '*a': matched 2 tasks");
}

// --- indexer ---

#[test]
fn content_hashes() {
    assert_eq!(
        hash_contents(&vec![]),
        "e3b0c44298fc1c149afbf4c8996fb92427ae41e4649b934ca495991b7852b855"
    );
    let h = hash_contents(&b"abc".to_vec());
    assert_eq!(h, "ba7816bf8f01cfea414140de5dae2223b00361a396177a9cb410ff61f20015ad");
    assert!(!needs_indexing(Some(&h), &h));
    assert!(needs_indexing(Some("other"), &h));
    assert!(needs_indexing(None, &h));
}

#[test]
fn project_root_is_first_marked_folder() {
    let c = |dir: &str, git: bool| RootCandidate {
        dir: s(dir),
        has_cargo_toml: false,
        has_lib_dir: false,
        has_git: git,
    };
    let up = vec![c("/p/a/b", false), c("/p/a", false), c("/p", true), c("/", true)];
    assert_eq!(find_project_root("/p/a/b", &up), "/p");
    let none = vec![c("/q/a", false), c("/q", false)];
    assert_eq!(find_project_root("/q/a", &none), "/q/a");
}

#[test]
fn local_dependencies_are_relative_and_sorted() {
    let resolved = vec![s("/p/z.typ"), s("/elsewhere/x.typ"), s("/p/lib/a.typ")];
    assert_eq!(local_dependencies(&resolved, "/p"), vec![s("lib/a.typ"), s("z.typ")]);
}
