//! The library's laws, each on concrete values.

use mindtape::filter_expr::translate_expr;
use mindtape::id::{encode_base62, parse_task_id};
use mindtape::watcher::{tally_scan, Debouncer, EventClass, IndexOutcome, PathAction, DEBOUNCE_MS};
use mindtape::config::{merge_configs, AgendaConfig, AgendaSection, Config, DatabaseConfig, WatchEntry};
use mindtape::eval::{filter_and_sort, Datetime, Task};
use mindtape::write::{
    add_task_tag, find_due_span, remove_task_due, remove_task_rank, remove_task_start,
    remove_task_tag, set_task_due, set_task_rank, set_task_start, toggle_task_checkbox, Source,
};

#[test]
fn law_toggle_twice_restores_text() {
    for text in ["- [ ] Task #id(\"a\")", "  - [x] Done #tag(\"w\") #id(\"a\")"] {
        let once = toggle_task_checkbox(&Source::detached(text), "a").unwrap();
        assert_ne!(once, text);
        let twice = toggle_task_checkbox(&Source::detached(&once), "a").unwrap();
        assert_eq!(twice, text);
    }
}

#[test]
fn law_toggle_upper_case_box_does_not_come_back() {
    let text = "- [X] Task #id(\"a\")";
    let once = toggle_task_checkbox(&Source::detached(text), "a").unwrap();
    let twice = toggle_task_checkbox(&Source::detached(&once), "a").unwrap();
    assert_eq!(twice, "- [x] Task #id(\"a\")");
}

#[test]
fn law_add_then_remove_tag_restores_text() {
    let text = "- [ ] Task #due(2026, 3, 1) #id(\"a\")";
    let added = add_task_tag(&Source::detached(text), "a", "work").unwrap();
    assert_eq!(added, "- [ ] Task #due(2026, 3, 1) #tag(\"work\") #id(\"a\")");
    let removed = remove_task_tag(&Source::detached(&added), "a", "work").unwrap();
    assert_eq!(removed, text);
}

#[test]
fn law_set_then_remove_due_restores_text() {
    let text = "- [ ] Task #tag(\"x\") #id(\"a\")";
    let set = set_task_due(&Source::detached(text), "a", "2026-12-31").unwrap();
    assert_eq!(set, "- [ ] Task #tag(\"x\") #due(2026, 12, 31) #id(\"a\")");
    let removed = remove_task_due(&Source::detached(&set), "a").unwrap();
    assert_eq!(removed, text);
}

#[test]
fn law_base62_round_trip_on_samples() {
    for uuid in ["019c5b9b-7317-77b1-bf52-ce7a298cfcad", "00000000-0000-7000-8000-000000000000"] {
        let b62 = encode_base62(uuid).unwrap();
        assert!(b62.len() < 32);
        assert_eq!(parse_task_id(&b62).unwrap(), uuid);
    }
}

#[test]
fn law_canonical_id_from_simple_form() {
    let simple = "019c5b9b731777b1bf52ce7a298cfcad";
    assert_eq!(parse_task_id(simple).unwrap(), "019c5b9b-7317-77b1-bf52-ce7a298cfcad");
    assert_eq!(
        parse_task_id("019C5B9B-7317-77B1-BF52-CE7A298CFCAD").unwrap(),
        "019c5b9b-7317-77b1-bf52-ce7a298cfcad"
    );
}

#[test]
fn law_one_parameter_per_placeholder() {
    for expr in [
        "done",
        "due < \"2026-03-10\" && rank >= 5",
        "!done && (has(due) || has_tag(\"work\")) && contains(title, \"x\")",
        "search(\"deploy\") || milestone == \"M1\"",
    ] {
        let frag = translate_expr(expr).unwrap();
        let marks = frag.condition.chars().filter(|c| *c == '?').count();
        assert_eq!(marks, frag.params.len(), "{expr}");
    }
}

#[test]
fn law_scan_tally_adds_up() {
    let outcomes = vec![
        IndexOutcome::Indexed,
        IndexOutcome::Skipped,
        IndexOutcome::Failed,
        IndexOutcome::Indexed,
    ];
    let r = tally_scan(&outcomes);
    assert_eq!(r.found, 4);
    assert_eq!(r.indexed, 2);
    assert_eq!(r.skipped, 1);
    assert_eq!(r.errors, 1);
    assert_eq!(r.indexed + r.skipped + r.errors, r.found);
}

#[test]
fn law_set_due_reads_back_on_both_paths() {
    for text in ["- [ ] T #id(\"a\")", "- [ ] T #due(2020, 1, 1) #tag(\"x\") #id(\"a\")"] {
        let set = set_task_due(&Source::detached(text), "a", "2026-07-04").unwrap();
        let (s, e) = find_due_span(&set).unwrap();
        assert_eq!(&set[s..e], "#due(2026, 7, 4)");
    }
}

#[test]
fn law_set_due_twice_keeps_the_last() {
    let text = "- [ ] T #tag(\"x\") #id(\"a\")";
    let once = set_task_due(&Source::detached(text), "a", "2026-01-02").unwrap();
    let twice = set_task_due(&Source::detached(&once), "a", "2026-03-04").unwrap();
    let direct = set_task_due(&Source::detached(text), "a", "2026-03-04").unwrap();
    assert_eq!(twice, direct);
}

#[test]
fn law_set_then_remove_start_restores_text() {
    let text = "- [ ] T #due(2026, 6, 1) #id(\"a\")";
    let set = set_task_start(&Source::detached(text), "a", "2026-05-01").unwrap();
    assert_eq!(set, "- [ ] T #due(2026, 6, 1) #start(2026, 5, 1) #id(\"a\")");
    assert_eq!(remove_task_start(&Source::detached(&set), "a").unwrap(), text);
}

#[test]
fn law_set_then_remove_rank_restores_text() {
    let text = "- [ ] T #tag(\"x\") #id(\"a\")";
    for rank in [-3, 0, 42] {
        let set = set_task_rank(&Source::detached(text), "a", rank).unwrap();
        assert_eq!(set, format!("- [ ] T #tag(\"x\") #rank({rank}) #id(\"a\")"));
        assert_eq!(remove_task_rank(&Source::detached(&set), "a").unwrap(), text);
    }
}

fn task(title: &str, done: bool, due: Option<(i32, u8, u8)>) -> Task {
    Task {
        title: title.to_string(),
        done,
        due: due.map(|(y, m, d)| Datetime { year: Some(y), month: Some(m), day: Some(d) }),
        start: None,
        rank: None,
        tags: vec![],
        id: None,
        position: 0,
        milestone: None,
    }
}

#[test]
fn law_listing_is_pending_dated_sorted_and_limited() {
    let tasks = vec![
        task("c", false, Some((2026, 5, 1))),
        task("done", true, Some((2020, 1, 1))),
        task("undated", false, None),
        task("a", false, Some((2025, 12, 31))),
        task("b", false, Some((2026, 1, 1))),
    ];
    let listed = filter_and_sort(tasks.clone(), true, None);
    let titles: Vec<&str> = listed.iter().map(|t| t.title.as_str()).collect();
    assert_eq!(titles, vec!["a", "b", "c"]);
    let limited = filter_and_sort(tasks.clone(), true, Some(2));
    assert_eq!(limited.len(), 2);
    let all_pending = filter_and_sort(tasks, false, None);
    assert!(all_pending.iter().all(|t| !t.done));
    assert_eq!(all_pending.len(), 4);
}

#[test]
fn law_edit_keeps_text_around_the_item() {
    let before = "= Plan\n\nSome text.\n\n";
    let item = "- [ ] Task #id(\"a\")";
    let after = "\n- [ ] Other #id(\"b\")\n\nMore text.\n";
    let text = format!("{before}{item}{after}");
    let edited = add_task_tag(&Source::detached(&text), "a", "x").unwrap();
    assert!(edited.starts_with(before));
    assert!(edited.ends_with(after));
    assert_eq!(edited, format!("{before}- [ ] Task #tag(\"x\") #id(\"a\"){after}"));
}

fn cfg(db: Option<&str>, watch: &[&str], agenda_filter: Option<Option<&str>>) -> Config {
    Config {
        database: db.map(|p| DatabaseConfig { path: p.to_string() }),
        watch: watch.iter().map(|p| WatchEntry { path: p.to_string(), recursive: true }).collect(),
        agenda: agenda_filter.map(|f| AgendaConfig {
            filter: f.map(|s| s.to_string()),
            sections: vec![AgendaSection {
                name: format!("s{}", watch.len()),
                kind: "tasks".to_string(),
                filter: None,
                sort: vec![],
                status: None,
                limit: None,
                deduplicate: None,
            }],
        }),
    }
}

#[test]
fn law_merge_of_merges_is_merge_of_all() {
    let xs = vec![cfg(None, &["a"], None), cfg(Some("x.db"), &["b", "c"], Some(None))];
    let ys = vec![cfg(Some("y.db"), &[], Some(Some("done"))), cfg(None, &["d"], Some(Some("rank > 1")))];
    let all: Vec<_> = xs.iter().chain(ys.iter()).cloned().collect();
    let nested = merge_configs(vec![merge_configs(xs.clone()), merge_configs(ys.clone())]);
    let flat = merge_configs(all);
    assert_eq!(nested, flat);
    assert_eq!(flat.database.unwrap().path, "x.db");
    assert_eq!(flat.agenda.unwrap().filter, Some("done".to_string()));
}

#[test]
fn law_single_config_merges_to_itself() {
    for c in [cfg(None, &[], None), cfg(Some("z.db"), &["a", "b"], Some(Some("done")))] {
        assert_eq!(merge_configs(vec![c.clone()]), c);
    }
}

#[test]
fn law_fts_join_exactly_with_search() {
    let cases = [
        ("search(\"deploy\")", true),
        ("!search(\"x\")", true),
        ("done && (rank > 1 || search(\"y\"))", true),
        ("done && rank > 1", false),
        ("has_tag(\"search\")", false),
        ("contains(title, \"search\")", false),
    ];
    for (expr, fts) in cases {
        assert_eq!(translate_expr(expr).unwrap().needs_fts_join, fts, "{expr}");
    }
}

#[test]
fn law_literals_never_reach_the_sql() {
    let a = translate_expr("due < \"2026-03-10\" && has_tag(\"work\")").unwrap();
    let b = translate_expr("due < \"1999-01-01\" && has_tag(\"x') OR 1=1 --\")").unwrap();
    assert_eq!(a.condition, b.condition);
    assert_eq!(a.params, vec!["2026-03-10", "work"]);
    assert_eq!(b.params, vec!["1999-01-01", "x') OR 1=1 --"]);
    assert!(!b.condition.contains("1=1"));
}

#[test]
fn law_debounce_window_holds_across_other_events() {
    let mut d = Debouncer::new();
    d.event_count = 998;
    assert!(d.let_through("/w/a.typ", 5000));
    d.count_event(5010);
    assert!(d.let_through("/w/b.typ", 5020));
    d.count_event(5030); // the thousandth event: pruning keeps recent paths
    assert!(!d.let_through("/w/a.typ", 5000 + DEBOUNCE_MS - 1));
    assert!(d.let_through("/w/a.typ", 5000 + DEBOUNCE_MS));
}

#[test]
fn law_unchanged_file_is_skipped() {
    let bytes = b"- [ ] Task #id(\"019c5b9b-7317-77b1-bf52-ce7a298cfcad\")".to_vec();
    let first = mindtape::indexer::hash_contents(&bytes);
    let again = mindtape::indexer::hash_contents(&bytes);
    assert!(!mindtape::indexer::needs_indexing(Some(&first), &again));
    let changed = mindtape::indexer::hash_contents(&b"- [ ] Other".to_vec());
    assert!(mindtape::indexer::needs_indexing(Some(&first), &changed));
}

#[test]
fn law_preprocess_twice_is_once() {
    let raw: Vec<String> = ["mindtape", "list", "-5", "--3", "-n", "-12"].iter().map(|s| s.to_string()).collect();
    let once = mindtape::cli::preprocess_args(raw);
    assert_eq!(once, vec!["mindtape", "list", "-n", "5", "--3", "-n", "-n", "12"]);
    assert_eq!(mindtape::cli::preprocess_args(once.clone()), once);
}

#[test]
fn law_params_follow_source_order() {
    let f = translate_expr("(rank > 3 || title == \"b\") && has_tag(\"c\") && done == true && search(\"d\")").unwrap();
    assert_eq!(f.params, vec!["3", "b", "c", "1", "d"]);
    let g = translate_expr("contains(title, \"x\") || due < \"2026-01-01\"").unwrap();
    assert_eq!(g.params, vec!["x", "2026-01-01"]);
}

#[test]
fn law_event_step_decides_each_path_in_order() {
    let mut d = Debouncer::new();
    let configs = vec!["/home/me/.config/mindtape/config.toml".to_string()];
    let paths: Vec<String> = ["/w/.git/index", "/w/a.typ", "/w/a.typ", "/home/me/.config/mindtape/config.toml"]
        .iter()
        .map(|s| s.to_string())
        .collect();
    let acts = d.on_event(EventClass::Change, &paths, 1000, &configs);
    assert_eq!(acts, vec![PathAction::Ignore, PathAction::Handle, PathAction::Debounced, PathAction::ReloadConfig]);
    assert_eq!(d.event_count, 1);
    let none = d.on_event(EventClass::Access, &paths, 2000, &configs);
    assert!(none.is_empty());
    assert_eq!(d.event_count, 1);
    let later = d.on_event(EventClass::Change, &paths[1..2].to_vec(), 1000 + DEBOUNCE_MS, &configs);
    assert_eq!(later, vec![PathAction::Handle]);
}
