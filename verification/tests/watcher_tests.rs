//! Tests of the watcher's decisions.

use mindtape::watcher::{
    event_action, event_matters, find_watch_root, has_typ_extension, ignore_dirs,
    is_inside_dotgit, is_new_root, split_watched, Debouncer, EventAction, EventClass,
    DEBOUNCE_MS,
};

fn strings(v: &[&str]) -> Vec<String> {
    v.iter().map(|s| s.to_string()).collect()
}

#[test]
fn debouncer_skips_second_event_within_window() {
    let mut d = Debouncer::new();
    assert!(d.let_through("/w/a.typ", 1000));
    assert!(!d.let_through("/w/a.typ", 1000 + DEBOUNCE_MS - 1));
    assert!(d.let_through("/w/b.typ", 1001));
    assert!(d.let_through("/w/a.typ", 1000 + DEBOUNCE_MS));
    assert_eq!(d.last_seen.len(), 2);
}

#[test]
fn debouncer_skipped_event_keeps_first_time() {
    let mut d = Debouncer::new();
    assert!(d.let_through("/w/a.typ", 0));
    assert!(!d.let_through("/w/a.typ", 200));
    // The window runs from the event that went through, not the skipped one.
    assert!(d.let_through("/w/a.typ", 300));
}

#[test]
fn debouncer_prunes_old_paths_every_thousand_events() {
    let mut d = Debouncer::new();
    assert!(d.let_through("/w/old.typ", 0));
    assert!(d.let_through("/w/new.typ", 100_000));
    for _ in 0..999 {
        d.count_event(100_000);
    }
    assert_eq!(d.last_seen.len(), 2);
    d.count_event(100_000);
    assert_eq!(d.event_count, 1000);
    assert_eq!(d.last_seen.len(), 1);
    assert_eq!(d.last_seen[0].0, "/w/new.typ");
}

#[test]
fn only_change_events_matter() {
    assert!(event_matters(EventClass::Change));
    assert!(!event_matters(EventClass::Access));
    assert!(!event_matters(EventClass::Other));
}

#[test]
fn dotgit_and_extension_checks() {
    assert!(is_inside_dotgit("/w/.git/HEAD"));
    assert!(!is_inside_dotgit("/w/notes.git/a.typ"));
    assert!(has_typ_extension("/w/a.typ"));
    assert!(!has_typ_extension("/w/a.typst"));
    assert!(!has_typ_extension("/w/typ"));
}

#[test]
fn watch_root_is_first_containing_root() {
    let roots = strings(&["/w/notes", "/w", "/other"]);
    assert_eq!(find_watch_root("/w/notes/a.typ", &roots), Some("/w/notes".to_string()));
    assert_eq!(find_watch_root("/w/b.typ", &roots), Some("/w".to_string()));
    assert_eq!(find_watch_root("/wx/b.typ", &roots), None);
}

#[test]
fn event_actions() {
    assert_eq!(event_action("/w/a.typ", "/w", true, true, false), EventAction::Index("/w".to_string()));
    assert_eq!(event_action("/w/a.md", "/w", true, true, false), EventAction::Skip);
    assert_eq!(event_action("/w/a.typ", "/w", true, true, true), EventAction::Skip);
    assert_eq!(event_action("/w/a.typ", "/w", true, false, false), EventAction::Skip);
    assert_eq!(event_action("/w/a.typ", "/w", false, false, false), EventAction::Remove);
}

#[test]
fn split_and_new_roots() {
    let current = strings(&["/a", "/b", "/c"]);
    let keep = strings(&["/c", "/a"]);
    let (kept, removed) = split_watched(&current, &keep);
    assert_eq!(kept, strings(&["/a", "/c"]));
    assert_eq!(removed, strings(&["/b"]));
    assert!(is_new_root(&current, &"/d".to_string()));
    assert!(!is_new_root(&current, &"/b".to_string()));
}

#[test]
fn ignore_dirs_run_from_root_down() {
    let dirs = ignore_dirs("/w", "/w/a/b/file.typ");
    assert_eq!(dirs, strings(&["/w", "/w/a", "/w/a/b"]));
    assert_eq!(ignore_dirs("/w", "/w/file.typ"), strings(&["/w"]));
}

// --- is_inside_dotgit ---

#[test]
fn dotgit_path_is_detected() {
    assert!(is_inside_dotgit("/home/user/repo/.git/HEAD"));
    assert!(is_inside_dotgit("/repo/.git/refs/heads/main"));
    assert!(is_inside_dotgit("/repo/.git/objects/pack"));
}

#[test]
fn non_dotgit_path_is_not_detected() {
    assert!(!is_inside_dotgit("/home/user/repo/src/main.rs"));
    assert!(!is_inside_dotgit("/home/user/.gitconfig"));
    assert!(!is_inside_dotgit("/repo/todo.typ"));
}
