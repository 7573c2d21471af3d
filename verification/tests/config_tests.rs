//! Tests of configuration handling.

use mindtape::config::{
    default_db_path_from, expand_tilde, merge_configs, resolve_db_path, resolve_db_path_in,
    resolve_query_db_path, Config, DatabaseConfig, WatchEntry,
};

fn s(val: &str) -> String {
    val.to_string()
}

#[test]
fn expand_tilde_with_home() {
    let path = expand_tilde("~/notes/tasks");
    // Should not start with ~/ anymore (expands to home dir)
    assert!(!path.starts_with("~/"));
    assert!(path.ends_with("/notes/tasks"));
}

#[test]
fn expand_tilde_bare() {
    let path = expand_tilde("~");
    assert!(!path.starts_with('~'));
}

#[test]
fn expand_tilde_absolute_unchanged() {
    let path = expand_tilde("/tmp/tasks");
    assert_eq!(path, s("/tmp/tasks"));
}

#[test]
fn expand_tilde_relative_unchanged() {
    let path = expand_tilde("relative/path");
    assert_eq!(path, s("relative/path"));
}

#[test]
fn resolve_db_path_from_config() {
    let config = Config {
        database: Some(DatabaseConfig {
            path: "/custom/path.db".to_string(),
        }),
        watch: vec![],
        agenda: None,
    };
    assert_eq!(resolve_db_path(&config), s("/custom/path.db"));
}

#[test]
fn resolve_db_path_default() {
    let config = Config {
        database: None,
        watch: vec![],
        agenda: None,
    };
    let path = resolve_db_path(&config);
    assert!(path.ends_with("mindtape/index.db"));
}

#[test]
fn merge_configs_concatenates_watch_entries() {
    let first = Config {
        database: None,
        watch: vec![WatchEntry {
            path: "~/a".into(),
            recursive: true,
        }],
        agenda: None,
    };
    let second = Config {
        database: None,
        watch: vec![WatchEntry {
            path: "~/b".into(),
            recursive: false,
        }],
        agenda: None,
    };
    let merged = merge_configs(vec![first, second]);
    assert_eq!(merged.watch.len(), 2);
    assert_eq!(merged.watch[0].path, "~/a");
    assert_eq!(merged.watch[1].path, "~/b");
    assert!(merged.database.is_none());
}

#[test]
fn merge_configs_first_database_wins() {
    let first = Config {
        database: Some(DatabaseConfig {
            path: "/first.db".into(),
        }),
        watch: vec![],
        agenda: None,
    };
    let second = Config {
        database: Some(DatabaseConfig {
            path: "/second.db".into(),
        }),
        watch: vec![],
        agenda: None,
    };
    let merged = merge_configs(vec![first, second]);
    assert_eq!(merged.database.unwrap().path, "/first.db");
}

#[test]
fn merge_configs_later_database_used_if_first_missing() {
    let first = Config {
        database: None,
        watch: vec![],
        agenda: None,
    };
    let second = Config {
        database: Some(DatabaseConfig {
            path: "/second.db".into(),
        }),
        watch: vec![],
        agenda: None,
    };
    let merged = merge_configs(vec![first, second]);
    assert_eq!(merged.database.unwrap().path, "/second.db");
}

#[test]
fn merge_configs_empty_iterator() {
    let merged = merge_configs(vec![]);
    assert!(merged.watch.is_empty());
    assert!(merged.database.is_none());
}

#[test]
fn default_db_path_is_index_db_in_data_dir() {
    assert_eq!(default_db_path_from(None), "index.db");
    assert_eq!(default_db_path_from(Some("/data/mindtape".to_string())), "/data/mindtape/index.db");
}

#[test]
fn resolve_db_path_in_uses_data_dir_only_without_database() {
    let none = Config { database: None, watch: vec![], agenda: None };
    assert_eq!(resolve_db_path_in(&none, Some("/d".to_string())), "/d/index.db");
    let some = Config { database: Some(DatabaseConfig { path: "/x/my.db".to_string() }), watch: vec![], agenda: None };
    assert_eq!(resolve_db_path_in(&some, Some("/d".to_string())), "/x/my.db");
}

#[test]
fn query_db_path_prefers_the_explicit_path() {
    let found = Config { database: Some(DatabaseConfig { path: "/x/my.db".to_string() }), watch: vec![], agenda: None };
    assert_eq!(resolve_query_db_path(Some("/cli.db"), Some(found.clone())), "/cli.db");
    assert_eq!(resolve_query_db_path(None, Some(found)), "/x/my.db");
    assert!(resolve_query_db_path(None, None).ends_with("index.db"));
}
