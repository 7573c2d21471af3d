//! Configuration: watched folders, the database path, agenda sections, and
//! how several configuration files combine.

use vstd::prelude::*;
use crate::text::{copy_opt, copy_string, opt_view, push_str, strs};
use crate::paths::{join_path, joined};

verus! {

broadcast use vstd::string::group_string_axioms;

/// A configuration file's contents.
#[derive(Debug, Clone, PartialEq)]
pub struct Config {
    pub database: Option<DatabaseConfig>,
    pub watch: Vec<WatchEntry>,
    pub agenda: Option<AgendaConfig>,
}

/// Top-level agenda configuration.
#[derive(Debug, Clone, PartialEq)]
pub struct AgendaConfig {
    /// Filter applied to all task sections.
    pub filter: Option<String>,
    pub sections: Vec<AgendaSection>,
}

/// A single section of the agenda.
#[derive(Debug, Clone, PartialEq)]
pub struct AgendaSection {
    pub name: String,
    /// `"errors"` for file indexing errors, `"tasks"` for task queries.
    pub kind: String,
    /// Filter expression (same syntax as `list --filter`).
    pub filter: Option<String>,
    /// Sort specs (e.g. `["due:asc", "rank:desc"]`).
    pub sort: Vec<String>,
    /// `"pending"` (default), `"done"`, or `"all"`.
    pub status: Option<String>,
    /// Limit output to N items.
    pub limit: Option<usize>,
    /// Leave out tasks shown in earlier sections (default: true).
    pub deduplicate: Option<bool>,
}

/// The database section.
#[derive(Debug, Clone, PartialEq)]
pub struct DatabaseConfig {
    pub path: String,
}

/// A watched folder.
#[derive(Debug, Clone, PartialEq)]
pub struct WatchEntry {
    pub path: String,
    pub recursive: bool,
}

/// Errors of loading configuration.
#[derive(Debug, Clone, PartialEq)]
pub enum ConfigError {
    Io(String),
    Parse(String),
    Validation(String),
}

/// The message of a configuration error.
pub open spec fn config_error_message(e: &ConfigError) -> Seq<char> {
    match e {
        ConfigError::Io(s) => "io error: "@ + s@,
        ConfigError::Parse(s) => "parse error: "@ + s@,
        ConfigError::Validation(s) => "config error: "@ + s@,
    }
}

impl ConfigError {
    /// The error's message, as its `Display` form would print it.
    pub fn message(&self) -> (r: String)
        ensures
            r@ == config_error_message(self),
    {
        let mut r = String::new();
        match self {
            ConfigError::Io(s) => {
                push_str(&mut r, "io error: ");
                push_str(&mut r, s.as_str());
            },
            ConfigError::Parse(s) => {
                push_str(&mut r, "parse error: ");
                push_str(&mut r, s.as_str());
            },
            ConfigError::Validation(s) => {
                push_str(&mut r, "config error: ");
                push_str(&mut r, s.as_str());
            },
        }
        r
    }
}

// ---------------------------------------------------------------------------
// Merging
// ---------------------------------------------------------------------------

/// The plain form of a watch entry.
pub open spec fn entry_view(e: WatchEntry) -> (Seq<char>, bool) {
    (e.path@, e.recursive)
}

/// The plain form of watch entries.
pub open spec fn watch_view(s: Seq<WatchEntry>) -> Seq<(Seq<char>, bool)> {
    s.map_values(|e: WatchEntry| entry_view(e))
}

/// The plain form of an agenda section: name, kind, filter, sort specs,
/// status, limit and whether it deduplicates.
pub open spec fn section_view(x: AgendaSection) -> (
    Seq<char>,
    Seq<char>,
    Option<Seq<char>>,
    Seq<Seq<char>>,
    Option<Seq<char>>,
    Option<usize>,
    Option<bool>,
) {
    (x.name@, x.kind@, opt_view(&x.filter), strs(x.sort@), opt_view(&x.status), x.limit, x.deduplicate)
}

/// The plain form of agenda sections.
pub open spec fn sections_view(s: Seq<AgendaSection>) -> Seq<
    (Seq<char>, Seq<char>, Option<Seq<char>>, Seq<Seq<char>>, Option<Seq<char>>, Option<usize>, Option<bool>),
> {
    s.map_values(|x: AgendaSection| section_view(x))
}

proof fn lemma_watch_view_push(s: Seq<WatchEntry>, x: WatchEntry)
    ensures
        watch_view(s.push(x)) == watch_view(s).push(entry_view(x)),
{
    assert(watch_view(s.push(x)) =~= watch_view(s).push(entry_view(x)));
}

proof fn lemma_sections_view_push(s: Seq<AgendaSection>, x: AgendaSection)
    ensures
        sections_view(s.push(x)) == sections_view(s).push(section_view(x)),
{
    assert(sections_view(s.push(x)) =~= sections_view(s).push(section_view(x)));
}

/// The watch entries of configs, concatenated in order.
pub open spec fn merged_watch(cs: Seq<Config>) -> Seq<(Seq<char>, bool)>
    decreases cs.len(),
{
    if cs.len() == 0 {
        Seq::empty()
    } else {
        merged_watch(cs.drop_last()) + watch_view(cs.last().watch@)
    }
}

/// The database path of the first config that has one.
pub open spec fn merged_database(cs: Seq<Config>) -> Option<Seq<char>>
    decreases cs.len(),
{
    if cs.len() == 0 {
        None
    } else {
        match merged_database(cs.drop_last()) {
            Some(p) => Some(p),
            None => match cs.last().database {
                Some(d) => Some(d.path@),
                None => None,
            },
        }
    }
}

/// Whether any config has an agenda.
pub open spec fn has_agenda(cs: Seq<Config>) -> bool {
    exists|i: int| 0 <= i < cs.len() && (#[trigger] cs[i]).agenda is Some
}

/// The agenda sections of configs, concatenated in order.
pub open spec fn merged_sections(cs: Seq<Config>) -> Seq<
    (Seq<char>, Seq<char>, Option<Seq<char>>, Seq<Seq<char>>, Option<Seq<char>>, Option<usize>, Option<bool>),
>
    decreases cs.len(),
{
    if cs.len() == 0 {
        Seq::empty()
    } else {
        merged_sections(cs.drop_last()) + match cs.last().agenda {
            Some(a) => sections_view(a.sections@),
            None => Seq::empty(),
        }
    }
}

/// The agenda filter of the first agenda that has one.
pub open spec fn merged_agenda_filter(cs: Seq<Config>) -> Option<Seq<char>>
    decreases cs.len(),
{
    if cs.len() == 0 {
        None
    } else {
        match merged_agenda_filter(cs.drop_last()) {
            Some(f) => Some(f),
            None => match cs.last().agenda {
                Some(a) => opt_view(&a.filter),
                None => None,
            },
        }
    }
}

fn copy_section(s: &AgendaSection) -> (r: AgendaSection)
    ensures
        r.name@ == s.name@,
        r.kind@ == s.kind@,
        opt_view(&r.filter) == opt_view(&s.filter),
        strs(r.sort@) == strs(s.sort@),
        opt_view(&r.status) == opt_view(&s.status),
        r.limit == s.limit,
        r.deduplicate == s.deduplicate,
{
    AgendaSection {
        name: copy_string(&s.name),
        kind: copy_string(&s.kind),
        filter: copy_opt(&s.filter),
        sort: crate::text::copy_strings(&s.sort),
        status: copy_opt(&s.status),
        limit: s.limit,
        deduplicate: s.deduplicate,
    }
}

/// `r` is the merge of `cs`: watch entries concatenated in order, the
/// first database path, agenda sections concatenated in order and the
/// first agenda filter, and no agenda when none has one.
pub open spec fn is_merge_of(r: Config, cs: Seq<Config>) -> bool {
    &&& watch_view(r.watch@) == merged_watch(cs)
    &&& match r.database {
        Some(d) => merged_database(cs) == Some(d.path@),
        None => merged_database(cs) is None,
    }
    &&& (r.agenda is Some <==> has_agenda(cs))
    &&& (r.agenda matches Some(a) ==> sections_view(a.sections@) == merged_sections(cs)
        && opt_view(&a.filter) == merged_agenda_filter(cs))
}

/// The plain form of a config: watch entries, database path, and the
/// agenda's sections and filter.
pub open spec fn config_view(c: Config) -> (
    Seq<(Seq<char>, bool)>,
    Option<Seq<char>>,
    Option<(
        Seq<(Seq<char>, Seq<char>, Option<Seq<char>>, Seq<Seq<char>>, Option<Seq<char>>, Option<usize>, Option<bool>)>,
        Option<Seq<char>>,
    )>,
) {
    (
        watch_view(c.watch@),
        match c.database {
            Some(d) => Some(d.path@),
            None => None,
        },
        match c.agenda {
            Some(a) => Some((sections_view(a.sections@), opt_view(&a.filter))),
            None => None,
        },
    )
}

proof fn lemma_no_agenda(cs: Seq<Config>)
    requires
        !has_agenda(cs),
    ensures
        merged_sections(cs) == Seq::<(Seq<char>, Seq<char>, Option<Seq<char>>, Seq<Seq<char>>, Option<Seq<char>>, Option<usize>, Option<bool>)>::empty(),
        merged_agenda_filter(cs) is None,
    decreases cs.len(),
{
    if cs.len() > 0 {
        let p = cs.drop_last();
        assert(!has_agenda(p)) by {
            if has_agenda(p) {
                let i = choose|i: int| 0 <= i < p.len() && (#[trigger] p[i]).agenda is Some;
                assert(cs[i] == p[i]);
            }
        }
        assert(cs[cs.len() - 1] == cs.last());
        lemma_no_agenda(p);
    }
}

proof fn lemma_merge_append(xs: Seq<Config>, ys: Seq<Config>)
    ensures
        merged_watch(xs + ys) == merged_watch(xs) + merged_watch(ys),
        merged_database(xs + ys) == (match merged_database(xs) {
            Some(p) => Some(p),
            None => merged_database(ys),
        }),
        has_agenda(xs + ys) == (has_agenda(xs) || has_agenda(ys)),
        merged_sections(xs + ys) == merged_sections(xs) + merged_sections(ys),
        merged_agenda_filter(xs + ys) == (match merged_agenda_filter(xs) {
            Some(f) => Some(f),
            None => merged_agenda_filter(ys),
        }),
    decreases ys.len(),
{
    let zs = xs + ys;
    if ys.len() == 0 {
        assert(zs =~= xs);
        assert(merged_watch(xs) + merged_watch(ys) =~= merged_watch(xs));
        assert(merged_sections(xs) + merged_sections(ys) =~= merged_sections(xs));
    } else {
        let yp = ys.drop_last();
        lemma_merge_append(xs, yp);
        assert(zs.drop_last() =~= xs + yp);
        assert(zs.last() == ys.last());
        assert(merged_watch(zs) =~= merged_watch(xs) + merged_watch(ys));
        assert(merged_sections(zs) =~= merged_sections(xs) + merged_sections(ys));
        assert(has_agenda(zs) == (has_agenda(xs) || has_agenda(ys))) by {
            if has_agenda(zs) {
                let i = choose|i: int| 0 <= i < zs.len() && (#[trigger] zs[i]).agenda is Some;
                if i < xs.len() {
                    assert(xs[i] == zs[i]);
                } else {
                    assert(ys[i - xs.len()] == zs[i]);
                }
            }
            if has_agenda(xs) {
                let i = choose|i: int| 0 <= i < xs.len() && (#[trigger] xs[i]).agenda is Some;
                assert(zs[i] == xs[i]);
            }
            if has_agenda(ys) {
                let i = choose|i: int| 0 <= i < ys.len() && (#[trigger] ys[i]).agenda is Some;
                assert(zs[xs.len() + i] == ys[i]);
            }
        }
    }
}

proof fn lemma_merge_one(c: Config)
    ensures
        merged_watch(seq![c]) == watch_view(c.watch@),
        merged_database(seq![c]) == (match c.database {
            Some(d) => Some(d.path@),
            None => None::<Seq<char>>,
        }),
        has_agenda(seq![c]) == c.agenda is Some,
        merged_sections(seq![c]) == (match c.agenda {
            Some(a) => sections_view(a.sections@),
            None => Seq::empty(),
        }),
        merged_agenda_filter(seq![c]) == (match c.agenda {
            Some(a) => opt_view(&a.filter),
            None => None,
        }),
{
    let s = seq![c];
    let e = Seq::<Config>::empty();
    assert(s.drop_last() =~= e);
    assert(s.last() == c);
    assert(merged_watch(e) == Seq::<(Seq<char>, bool)>::empty());
    assert(merged_sections(e).len() == 0);
    assert(merged_database(e) is None);
    assert(merged_agenda_filter(e) is None);
    assert(merged_watch(s) =~= watch_view(c.watch@));
    assert(merged_sections(s) =~= match c.agenda {
        Some(a) => sections_view(a.sections@),
        None => Seq::empty(),
    });
    if c.agenda is Some {
        assert(s[0] == c);
    }
}

/// Merging is associative: merging the merge of `xs` with the merge of
/// `ys` gives what merging `xs` followed by `ys` gives.
pub proof fn law_merge_of_merges(a: Config, b: Config, xs: Seq<Config>, ys: Seq<Config>)
    requires
        is_merge_of(a, xs),
        is_merge_of(b, ys),
    ensures
        forall|r: Config| is_merge_of(r, seq![a, b]) <==> is_merge_of(r, xs + ys),
{
    let ab = seq![a, b];
    lemma_merge_append(xs, ys);
    lemma_merge_append(seq![a], seq![b]);
    assert(ab =~= seq![a] + seq![b]);
    lemma_merge_one(a);
    lemma_merge_one(b);
    if a.agenda is None {
        lemma_no_agenda(xs);
    }
    if b.agenda is None {
        lemma_no_agenda(ys);
    }
    assert(merged_watch(ab) == merged_watch(xs + ys));
    assert(merged_database(ab) == merged_database(xs + ys));
    assert(has_agenda(ab) == has_agenda(xs + ys));
    assert(merged_sections(ab) == merged_sections(xs + ys));
    assert(merged_agenda_filter(ab) == merged_agenda_filter(xs + ys));
}

/// A single config merges to itself.
pub proof fn law_merge_single(c: Config, r: Config)
    ensures
        is_merge_of(r, seq![c]) <==> config_view(r) == config_view(c),
{
    lemma_merge_one(c);
}

/// The configs of loading results that all succeeded.
pub open spec fn loaded_configs(s: Seq<Result<Config, ConfigError>>) -> Seq<Config> {
    s.map_values(|x: Result<Config, ConfigError>| x->Ok_0)
}

/// Merges configs: watch entries are concatenated in order, the first
/// database path wins, agenda sections are concatenated in order and the
/// first agenda filter wins; with no agenda at all there is none.
pub fn merge_configs(configs: Vec<Config>) -> (r: Config)
    ensures
        is_merge_of(r, configs@),
{
    let mut watch: Vec<WatchEntry> = Vec::new();
    let mut database: Option<DatabaseConfig> = None;
    let mut agenda: Option<AgendaConfig> = None;
    let ghost cs = configs@;
    let mut i: usize = 0;
    while i < configs.len()
        invariant
            i <= configs.len(),
            cs == configs@,
            watch_view(watch@) == merged_watch(cs.take(i as int)),
            match database {
                Some(d) => merged_database(cs.take(i as int)) == Some(d.path@),
                None => merged_database(cs.take(i as int)) is None,
            },
            agenda is Some <==> has_agenda(cs.take(i as int)),
            agenda matches Some(a) ==> sections_view(a.sections@)
                == merged_sections(cs.take(i as int)) && opt_view(&a.filter)
                == merged_agenda_filter(cs.take(i as int)),
            agenda is None ==> merged_sections(cs.take(i as int)).len() == 0
                && merged_agenda_filter(cs.take(i as int)) is None,
        decreases configs.len() - i,
    {
        let ghost pre = cs.take(i as int);
        let ghost now = cs.take(i + 1);
        assert(now.drop_last() =~= pre);
        assert(now.last() == cs[i as int]);
        let c = &configs[i];
        let mut k: usize = 0;
        let ghost w0 = watch_view(watch@);
        while k < c.watch.len()
            invariant
                k <= c.watch.len(),
                watch_view(watch@) == w0 + watch_view(c.watch@.take(k as int)),
            decreases c.watch.len() - k,
        {
            let e = WatchEntry { path: copy_string(&c.watch[k].path), recursive: c.watch[k].recursive };
            let ghost before = watch@;
            watch.push(e);
            proof {
                assert(watch@ == before.push(e));
                lemma_watch_view_push(before, e);
                assert(c.watch@.take(k + 1) =~= c.watch@.take(k as int).push(c.watch@[k as int]));
                lemma_watch_view_push(c.watch@.take(k as int), c.watch@[k as int]);
                assert(watch_view(watch@) =~= w0 + watch_view(c.watch@.take(k + 1)));
            }
            k = k + 1;
        }
        assert(c.watch@.take(c.watch.len() as int) =~= c.watch@);
        if database.is_none() {
            if let Some(d) = &c.database {
                database = Some(DatabaseConfig { path: copy_string(&d.path) });
            }
        }
        if let Some(ag) = &c.agenda {
            let mut dest = match agenda {
                Some(a) => a,
                None => AgendaConfig { filter: None, sections: Vec::new() },
            };
            let ghost s0 = sections_view(dest.sections@);
            assert(s0 == merged_sections(pre));
            let mut j: usize = 0;
            while j < ag.sections.len()
                invariant
                    j <= ag.sections.len(),
                    sections_view(dest.sections@) == s0 + sections_view(ag.sections@.take(j as int)),
                    opt_view(&dest.filter) == merged_agenda_filter(pre),
                decreases ag.sections.len() - j,
            {
                let s = copy_section(&ag.sections[j]);
                let ghost before = dest.sections@;
                dest.sections.push(s);
                proof {
                    assert(dest.sections@ == before.push(s));
                    lemma_sections_view_push(before, s);
                    assert(ag.sections@.take(j + 1) =~= ag.sections@.take(j as int).push(
                        ag.sections@[j as int],
                    ));
                    lemma_sections_view_push(ag.sections@.take(j as int), ag.sections@[j as int]);
                    assert(sections_view(dest.sections@) =~= s0 + sections_view(
                        ag.sections@.take(j + 1),
                    ));
                }
                j = j + 1;
            }
            assert(ag.sections@.take(ag.sections.len() as int) =~= ag.sections@);
            if dest.filter.is_none() {
                dest.filter = copy_opt(&ag.filter);
            }
            agenda = Some(dest);
            proof {
                assert(now[i as int].agenda is Some);
            }
        } else {
            proof {
                if has_agenda(now) {
                    let w = choose|w: int| 0 <= w < now.len() && (#[trigger] now[w]).agenda is Some;
                    if w < i {
                        assert(pre[w] == now[w]);
                    }
                }
                if has_agenda(pre) {
                    let w = choose|w: int| 0 <= w < pre.len() && (#[trigger] pre[w]).agenda is Some;
                    assert(now[w] == pre[w]);
                }
            }
        }
        proof {
            if c.agenda is Some && has_agenda(pre) {
            }
            if has_agenda(pre) {
                let w = choose|w: int| 0 <= w < pre.len() && (#[trigger] pre[w]).agenda is Some;
                assert(now[w] == pre[w]);
            }
        }
        i = i + 1;
    }
    assert(cs.take(configs.len() as int) =~= cs);
    Config { database, watch, agenda }
}

/// Combines the results of loading several configuration files, in order:
/// the first failure, or the merge of all.
pub fn load_and_merge(loaded: Vec<Result<Config, ConfigError>>) -> (r: Result<Config, ConfigError>)
    ensures
        match r {
            Err(e) => exists|i: int|
                0 <= i < loaded@.len() && loaded@[i] == Err::<Config, ConfigError>(e) && forall|m: int|
                    0 <= m < i ==> (#[trigger] loaded@[m]) is Ok,
            Ok(c) => (forall|m: int| 0 <= m < loaded@.len() ==> (#[trigger] loaded@[m]) is Ok)
                && is_merge_of(c, loaded_configs(loaded@)),
        },
{
    let ghost all = loaded@;
    let mut i: usize = 0;
    while i < loaded.len()
        invariant
            i <= loaded.len(),
            all == loaded@,
            forall|m: int| 0 <= m < i ==> (#[trigger] loaded@[m]) is Ok,
        decreases loaded.len() - i,
    {
        if loaded[i].is_err() {
            let mut rest = loaded;
            let item = rest.remove(i);
            match item {
                Err(e) => {
                    assert(all[i as int] == Err::<Config, ConfigError>(e));
                    return Err(e);
                },
                Ok(_) => {
                    return vstd::pervasive::unreached();
                },
            }
        }
        i = i + 1;
    }
    let mut configs: Vec<Config> = Vec::new();
    let mut rest = loaded;
    let ghost mut k: int = 0;
    while rest.len() > 0
        invariant
            0 <= k <= all.len(),
            rest@ == all.skip(k),
            configs@ == loaded_configs(all.take(k)),
            forall|m: int| 0 <= m < all.len() ==> (#[trigger] all[m]) is Ok,
        decreases rest.len(),
    {
        let ghost before = rest@;
        let item = rest.remove(0);
        proof {
            assert(item == all[k]);
            assert(rest@ =~= all.skip(k + 1));
            assert(all.take(k + 1) =~= all.take(k).push(all[k]));
        }
        match item {
            Ok(c) => {
                configs.push(c);
                proof {
                    assert(configs@ =~= loaded_configs(all.take(k + 1)));
                    k = k + 1;
                }
            },
            Err(_) => {
                proof {
                    assert(all[k] is Ok);
                }
            },
        }
    }
    proof {
        assert(all.take(k) =~= all);
    }
    Ok(merge_configs(configs))
}

// ---------------------------------------------------------------------------
// Paths
// ---------------------------------------------------------------------------

/// Calls `shellexpand::tilde`.  Trusted: a path that does not start with
/// `~` followed by nothing or `/` is returned unchanged; otherwise the
/// result is the path itself (no home directory known) or the home
/// directory followed by the rest of the path, which depends on the
/// environment.
#[verifier::external_body]
pub fn expand_tilde(path: &str) -> (r: String)
    ensures
        !(path@.len() > 0 && path@[0] == '~' && (path@.len() == 1 || path@[1] == '/')) ==> r@
            == path@,
        r@ == path@ || exists|h: Seq<char>| r@ == h + path@.skip(1),
{
    shellexpand::tilde(path).to_string()
}

/// Calls `directories::ProjectDirs::from(qualifier, organization,
/// application)` and takes its data directory.  Trusted: nothing is stated
/// of the result, which depends on the environment (no home directory
/// gives `None`).
#[verifier::external_body]
fn data_dir(qualifier: &str, organization: &str, application: &str) -> (r: Option<String>)
{
    directories::ProjectDirs::from(qualifier, organization, application)
        .map(|d| d.data_dir().to_string_lossy().to_string())
}

/// The default database path for a data directory: `index.db` in it, or
/// `index.db` alone when there is none.
pub open spec fn default_db_path_spec(dir: Option<Seq<char>>) -> Seq<char> {
    match dir {
        Some(d) => joined(d, "index.db"@),
        None => "index.db"@,
    }
}

/// The default database path for a data directory.
pub fn default_db_path_from(dir: Option<String>) -> (r: String)
    ensures
        r@ == default_db_path_spec(opt_view(&dir)),
{
    match dir {
        Some(d) => join_path(d.as_str(), "index.db"),
        None => "index.db".to_string(),
    }
}

/// The default database path: `index.db` in the user's data directory.
pub fn default_db_path() -> (r: String)
    ensures
        exists|dir: Option<Seq<char>>| r@ == default_db_path_spec(dir),
{
    let dir = data_dir("", "", "mindtape");
    default_db_path_from(dir)
}

/// The database path of a configuration given the user's data directory:
/// the configured path with `~` expanded, or the default path.
pub fn resolve_db_path_in(config: &Config, dir: Option<String>) -> (r: String)
    ensures
        config.database matches Some(d) ==> (!(d.path@.len() > 0 && d.path@[0] == '~' && (d.path@.len()
            == 1 || d.path@[1] == '/')) ==> r@ == d.path@),
        config.database matches Some(d) ==> (r@ == d.path@ || exists|h: Seq<char>| r@ == h + d.path@.skip(1)),
        config.database is None ==> r@ == default_db_path_spec(opt_view(&dir)),
{
    match &config.database {
        Some(db) => expand_tilde(db.path.as_str()),
        None => default_db_path_from(dir),
    }
}

/// The database path of a configuration: its database path with `~`
/// expanded, or the default path.
pub fn resolve_db_path(config: &Config) -> (r: String)
    ensures
        config.database matches Some(d) ==> (!(d.path@.len() > 0 && d.path@[0] == '~' && (d.path@.len()
            == 1 || d.path@[1] == '/')) ==> r@ == d.path@),
        config.database matches Some(d) ==> (r@ == d.path@ || exists|h: Seq<char>| r@ == h + d.path@.skip(1)),
        config.database is None ==> exists|dir: Option<Seq<char>>| r@ == default_db_path_spec(dir),
{
    let dir = match &config.database {
        Some(_) => None,
        None => data_dir("", "", "mindtape"),
    };
    resolve_db_path_in(config, dir)
}

/// The query database: the path given on the command line, else the one
/// the found configuration names (or the default), else the default.
pub fn resolve_query_db_path(db_override: Option<&str>, found: Option<Config>) -> (r: String)
    ensures
        db_override matches Some(p) ==> r@ == p@,
        db_override is None && found is None ==> exists|dir: Option<Seq<char>>| r@ == default_db_path_spec(dir),
        db_override is None ==> (found matches Some(c) ==> (c.database is None ==> exists|dir: Option<Seq<char>>|
            r@ == default_db_path_spec(dir))),
        db_override is None ==> (found matches Some(c) ==> (c.database matches Some(d) ==> (r@ == d.path@
            || exists|h: Seq<char>| r@ == h + d.path@.skip(1)))),
{
    match db_override {
        Some(p) => p.to_string(),
        None => match found {
            Some(c) => resolve_db_path(&c),
            None => default_db_path(),
        },
    }
}

/// The configuration of a single folder given on the command line: that
/// folder, watched recursively.
pub fn folder_config(path: &str) -> (r: Config)
    ensures
        r.database is None,
        r.agenda is None,
        r.watch.len() == 1,
        r.watch@[0].path@ == path@,
        r.watch@[0].recursive,
{
    let mut watch: Vec<WatchEntry> = Vec::new();
    watch.push(WatchEntry { path: path.to_string(), recursive: true });
    Config { database: None, watch, agenda: None }
}

}
