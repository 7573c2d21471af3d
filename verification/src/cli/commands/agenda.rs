//! `agenda`: a Typst agenda made of configured sections, each a task query
//! or the list of files that failed to index; a task shown in one section
//! is left out of later ones.

use vstd::prelude::*;
use crate::cli::commands::inspect::{errors_typst_text, format_errors_typst};
use crate::cli::commands::list::{parse_sort_spec_with, sort_spec_parse};
use crate::cli::format::{format_task_typst, typst_parts};
use crate::config::AgendaSection;
use crate::store::{FileError, SortSpec, TaskFilter, TaskView, TaskViewV};
use crate::text::{
    chars_of, copy_string, find_first, join, match_at, opt_view, push_char, push_chars, push_str,
    str_eq, strs,
};

verus! {

broadcast use vstd::string::group_string_axioms;

/// Arguments of `agenda`.
#[derive(Debug, Clone, PartialEq)]
pub struct AgendaArgs {
    /// Path to the database.
    pub db: Option<String>,
    /// Config files (repeatable).
    pub config: Vec<String>,
}

// ---------------------------------------------------------------------------
// Filters
// ---------------------------------------------------------------------------

/// `s` with every `pat` replaced by `rep`, scanning left to right
/// (`str::replace`).
pub open spec fn replace_all(s: Seq<char>, pat: Seq<char>, rep: Seq<char>) -> Seq<char>
    decreases s.len(),
{
    match find_first(s, pat) {
        Some(i) => if pat.len() > 0 && 0 <= i && i + pat.len() <= s.len() {
            s.take(i) + rep + replace_all(s.skip(i + pat.len()), pat, rep)
        } else {
            s
        },
        None => s,
    }
}

/// Replaces every occurrence of the non-empty `pat` in `s` by `rep`.
pub fn replace_str(s: &str, pat: &str, rep: &str) -> (r: String)
    requires
        pat@.len() > 0,
    ensures
        r@ == replace_all(s@, pat@, rep@),
{
    let v = chars_of(s);
    let p = chars_of(pat);
    let mut out = String::new();
    let mut start: usize = 0;
    assert(v@.skip(0) =~= v@);
    while start <= v.len()
        invariant
            start <= v.len(),
            v@ == s@,
            p@ == pat@,
            p@.len() > 0,
            out@ + replace_all(v@.skip(start as int), p@, rep@) == replace_all(v@, p@, rep@),
        decreases v.len() + 1 - start,
    {
        let rest = crate::text::slice_vec(&v, start, v.len());
        assert(rest@ =~= v@.skip(start as int));
        match crate::text::find_in(&rest, &p, 0) {
            None => {
                push_chars(&mut out, &rest);
                return out;
            },
            Some(i) => {
                proof {
                    crate::text::lemma_find_from(rest@, p@, 0);
                }
                let head = crate::text::slice_vec(&rest, 0, i);
                let ghost before = out@;
                push_chars(&mut out, &head);
                push_str(&mut out, rep);
                proof {
                    assert(head@ =~= rest@.take(i as int));
                    assert(rest@.skip(i + p@.len()) =~= v@.skip(start + i + p@.len()));
                    assert(out@ + replace_all(rest@.skip(i + p@.len()), p@, rep@) =~= before
                        + replace_all(rest@, p@, rep@));
                }
                start = start + i + p.len();
            },
        }
    }
    out
}

/// The filter of a section with `$today` replaced by today's date.
pub fn expand_filter(filter: Option<&str>, today: &str) -> (r: Option<String>)
    ensures
        match filter {
            Some(f) => r matches Some(x) && x@ == replace_all(f@, "$today"@, today@),
            None => r is None,
        },
{
    match filter {
        Some(f) => {
            proof {
                reveal_strlit("$today");
            }
            Some(replace_str(f, "$today", today))
        },
        None => None,
    }
}

/// Parses a `field[:dir]` sort specification of an agenda section.
pub fn parse_sort_spec(input: &str) -> (r: Result<SortSpec, String>)
    ensures
        match r {
            Ok(s) => sort_spec_parse(input@, ""@) == Ok::<SortSpec, Seq<char>>(s),
            Err(e) => sort_spec_parse(input@, ""@) == Err::<SortSpec, Seq<char>>(e@),
        },
{
    parse_sort_spec_with(input, "")
}

// ---------------------------------------------------------------------------
// Sections
// ---------------------------------------------------------------------------

/// The text `format!("{s:?}")` gives for a string.
pub uninterp spec fn debug_text(s: Seq<char>) -> Seq<char>;

/// Formats a string with `Debug` (`format!("{:?}", s)`).  Trusted: the
/// result is the named `debug_text`.
#[verifier::external_body]
fn debug_quote(s: &str) -> (r: String)
    ensures
        r@ == debug_text(s@),
{
    format!("{s:?}")
}

/// The `done` filter of a section's status.
pub open spec fn section_done_spec(status: Option<Seq<char>>) -> Result<Option<bool>, Seq<char>> {
    match status {
        None => Ok(Some(false)),
        Some(s) => if s == "done"@ {
            Ok(Some(true))
        } else if s == "all"@ {
            Ok(None)
        } else if s == "pending"@ {
            Ok(Some(false))
        } else {
            Err("unknown status filter: "@ + debug_text(s))
        },
    }
}

/// The `done` filter of a section's status: pending by default.
pub fn section_done(status: Option<&str>) -> (r: Result<Option<bool>, String>)
    ensures
        match r {
            Ok(d) => section_done_spec(
                match status {
                    Some(s) => Some(s@),
                    None => None,
                },
            ) == Ok::<Option<bool>, Seq<char>>(d),
            Err(e) => section_done_spec(
                match status {
                    Some(s) => Some(s@),
                    None => None,
                },
            ) == Err::<Option<bool>, Seq<char>>(e@),
        },
{
    match status {
        None => Ok(Some(false)),
        Some(s) => {
            if str_eq(s, "done") {
                Ok(Some(true))
            } else if str_eq(s, "all") {
                Ok(None)
            } else if str_eq(s, "pending") {
                Ok(Some(false))
            } else {
                let mut m = String::new();
                push_str(&mut m, "unknown status filter: ");
                let q = debug_quote(s);
                push_str(&mut m, q.as_str());
                Err(m)
            }
        },
    }
}

/// The sort of a section: every spec parsed in order; the first invalid
/// one is an error.
pub open spec fn section_sort_spec(sort: Seq<Seq<char>>) -> Result<Seq<SortSpec>, Seq<char>>
    decreases sort.len(),
{
    if sort.len() == 0 {
        Ok(Seq::empty())
    } else {
        match section_sort_spec(sort.drop_last()) {
            Err(e) => Err(e),
            Ok(done) => match sort_spec_parse(sort.last(), ""@) {
                Err(e) => Err("invalid sort spec in agenda config: "@ + e),
                Ok(s) => Ok(done.push(s)),
            },
        }
    }
}

proof fn lemma_sort_err(sort: Seq<Seq<char>>, k: int)
    requires
        0 <= k <= sort.len(),
        section_sort_spec(sort.take(k)) is Err,
    ensures
        section_sort_spec(sort) == section_sort_spec(sort.take(k)),
    decreases sort.len(),
{
    if k == sort.len() {
        assert(sort.take(k) =~= sort);
    } else {
        assert(sort.drop_last().take(k) =~= sort.take(k));
        lemma_sort_err(sort.drop_last(), k);
    }
}

fn section_sort(sort: &Vec<String>) -> (r: Result<Vec<SortSpec>, String>)
    ensures
        match r {
            Ok(v) => section_sort_spec(strs(sort@)) == Ok::<Seq<SortSpec>, Seq<char>>(v@),
            Err(e) => section_sort_spec(strs(sort@)) == Err::<Seq<SortSpec>, Seq<char>>(e@),
        },
{
    let ghost all = strs(sort@);
    let mut out: Vec<SortSpec> = Vec::new();
    let mut i: usize = 0;
    assert(all.take(0) =~= Seq::<Seq<char>>::empty());
    while i < sort.len()
        invariant
            i <= sort.len(),
            all == strs(sort@),
            section_sort_spec(all.take(i as int)) == Ok::<Seq<SortSpec>, Seq<char>>(out@),
        decreases sort.len() - i,
    {
        proof {
            assert(all.take(i + 1).drop_last() =~= all.take(i as int));
            assert(all.take(i + 1).last() == sort@[i as int]@);
        }
        match parse_sort_spec(sort[i].as_str()) {
            Ok(s) => {
                out.push(s);
            },
            Err(e) => {
                let mut m = String::new();
                push_str(&mut m, "invalid sort spec in agenda config: ");
                push_str(&mut m, e.as_str());
                proof {
                    lemma_sort_err(all, i + 1);
                }
                return Err(m);
            },
        }
        i = i + 1;
    }
    assert(all.take(sort.len() as int) =~= all);
    Ok(out)
}

/// What a section shows.
#[derive(Debug, Clone, PartialEq)]
pub enum SectionPlan {
    /// The files that failed to index.
    Errors,
    /// The tasks of a query; `dedup` leaves out tasks already shown.
    Tasks { filter: TaskFilter, dedup: bool },
}

/// The message of an unknown section kind.
pub open spec fn unknown_kind_message(kind: Seq<char>) -> Seq<char> {
    "unknown agenda section kind: "@ + debug_text(kind)
}

/// Plans a section: `errors` lists failed files; `tasks` queries tasks
/// with the section's status, sort, limit, and filter (with `$today`
/// replaced by `today`), deduplicating unless the section says not to.
pub fn plan_section(section: &AgendaSection, today: &str) -> (r: Result<SectionPlan, String>)
    ensures
        section.kind@ == "errors"@ ==> r is Ok && r->Ok_0 is Errors,
        section.kind@ != "errors"@ && section.kind@ != "tasks"@ ==> (r matches Err(e) && e@
            == unknown_kind_message(section.kind@)),
        section.kind@ == "tasks"@ ==> match r {
            Ok(SectionPlan::Tasks { filter, dedup }) => {
                &&& section_done_spec(opt_view(&section.status)) == Ok::<Option<bool>, Seq<char>>(
                    filter.done,
                )
                &&& section_sort_spec(strs(section.sort@)) == Ok::<Seq<SortSpec>, Seq<char>>(
                    filter.sort@,
                )
                &&& filter.limit == section.limit
                &&& filter.folder is None
                &&& filter.watch_root is None
                &&& opt_view(&filter.expr) == match opt_view(&section.filter) {
                    Some(f) => Some(replace_all(f, "$today"@, today@)),
                    None => None,
                }
                &&& dedup == match section.deduplicate {
                    Some(d) => d,
                    None => true,
                }
            },
            Ok(SectionPlan::Errors) => false,
            Err(e) => section_done_spec(opt_view(&section.status)) == Err::<
                Option<bool>,
                Seq<char>,
            >(e@) || (section_done_spec(opt_view(&section.status)) is Ok && section_sort_spec(
                strs(section.sort@),
            ) == Err::<Seq<SortSpec>, Seq<char>>(e@)),
        },
{
    proof {
        reveal_strlit("errors");
        reveal_strlit("tasks");
        assert("errors"@[0] != "tasks"@[0]);
        assert("errors"@ != "tasks"@);
    }
    if str_eq(section.kind.as_str(), "errors") {
        return Ok(SectionPlan::Errors);
    }
    if !str_eq(section.kind.as_str(), "tasks") {
        let mut m = String::new();
        push_str(&mut m, "unknown agenda section kind: ");
        let q = debug_quote(section.kind.as_str());
        push_str(&mut m, q.as_str());
        return Err(m);
    }
    let status = match &section.status {
        Some(s) => Some(s.as_str()),
        None => None,
    };
    let done = section_done(status)?;
    let sort = section_sort(&section.sort)?;
    let filter_text = match &section.filter {
        Some(f) => Some(f.as_str()),
        None => None,
    };
    let filter = TaskFilter {
        done,
        folder: None,
        watch_root: None,
        limit: section.limit,
        sort,
        expr: expand_filter(filter_text, today),
    };
    let dedup = match section.deduplicate {
        Some(d) => d,
        None => true,
    };
    Ok(SectionPlan::Tasks { filter, dedup })
}

// ---------------------------------------------------------------------------
// Output
// ---------------------------------------------------------------------------

/// The first line of the agenda.
pub open spec fn agenda_header_text(version: Seq<char>) -> Seq<char> {
    "#import \"@local/mindtape:"@ + version + "\": *\n"@
}

/// The first line of the agenda: the import of the package `version`.
pub fn agenda_header(version: &str) -> (r: String)
    ensures
        r@ == agenda_header_text(version@),
{
    let mut r = String::new();
    push_str(&mut r, "#import \"@local/mindtape:");
    push_str(&mut r, version);
    push_str(&mut r, "\": *\n");
    r
}

/// The heading of a section, with a blank line before and after.
pub fn section_heading(name: &str) -> (r: String)
    ensures
        r@ == "\n== "@ + name@ + "\n\n"@,
{
    let mut r = String::new();
    push_str(&mut r, "\n== ");
    push_str(&mut r, name);
    push_str(&mut r, "\n\n");
    r
}

/// The body of an errors section.
pub open spec fn errors_section_text(errors: Seq<FileError>, home: Seq<char>) -> Seq<char> {
    if errors.len() == 0 {
        "No errors.\n"@
    } else {
        errors_typst_text(errors, home)
    }
}

/// Renders an errors section.
pub fn render_errors(errors: &Vec<FileError>, home: &str) -> (r: String)
    ensures
        r@ == errors_section_text(errors@, home@),
{
    if errors.len() == 0 {
        "No errors.\n".to_string()
    } else {
        format_errors_typst(errors, home)
    }
}

/// What identifies a task across sections: its task ID, else its file and
/// position.
#[derive(Debug, Clone, PartialEq)]
pub enum TaskKey {
    Id(String),
    Position(String, i32),
}

/// The plain-value form of a [`TaskKey`].
pub enum TaskKeyV {
    Id(Seq<char>),
    Position(Seq<char>, i32),
}

impl View for TaskKey {
    type V = TaskKeyV;

    open spec fn view(&self) -> TaskKeyV {
        match self {
            TaskKey::Id(s) => TaskKeyV::Id(s@),
            TaskKey::Position(p, n) => TaskKeyV::Position(p@, *n),
        }
    }
}

/// The key of a task.
pub open spec fn key_of(t: TaskViewV) -> TaskKeyV {
    match t.task_id {
        Some(id) => TaskKeyV::Id(id),
        None => TaskKeyV::Position(t.file_path, t.position),
    }
}

/// The key of a task.
pub fn task_key(task: &TaskView) -> (r: TaskKey)
    ensures
        r@ == key_of(task@),
{
    match &task.task_id {
        Some(id) => TaskKey::Id(copy_string(id)),
        None => TaskKey::Position(copy_string(&task.file_path), task.position),
    }
}

fn same_key(a: &TaskKey, b: &TaskKey) -> (r: bool)
    ensures
        r == (a@ == b@),
{
    match (a, b) {
        (TaskKey::Id(x), TaskKey::Id(y)) => str_eq(x.as_str(), y.as_str()),
        (TaskKey::Position(p, n), TaskKey::Position(q, m)) => *n == *m && str_eq(p.as_str(), q.as_str()),
        _ => false,
    }
}

/// The plain form of a list of keys.
pub open spec fn keys_view(v: Seq<TaskKey>) -> Seq<TaskKeyV> {
    v.map_values(|k: TaskKey| k@)
}

/// The tasks of a section that are shown: with `dedup`, a task whose key
/// was seen before (in an earlier section or earlier in this one) is left
/// out.  Gives the shown tasks and the keys seen after them.
pub open spec fn shown_tasks(ts: Seq<TaskViewV>, dedup: bool, seen: Seq<TaskKeyV>) -> (
    Seq<TaskViewV>,
    Seq<TaskKeyV>,
)
    decreases ts.len(),
{
    if ts.len() == 0 {
        (Seq::empty(), seen)
    } else {
        let (shown, s) = shown_tasks(ts.drop_last(), dedup, seen);
        let k = key_of(ts.last());
        if dedup && s.contains(k) {
            (shown, s)
        } else {
            (shown.push(ts.last()), if dedup { s.push(k) } else { s })
        }
    }
}

/// The body of a tasks section: one Typst list item per shown task, or
/// `No tasks.`.
pub open spec fn tasks_section_text(shown: Seq<TaskViewV>) -> Seq<char> {
    if shown.len() == 0 {
        "No tasks.\n"@
    } else {
        task_lines(shown)
    }
}

/// One Typst list item per task, each on its own line.
pub open spec fn task_lines(ts: Seq<TaskViewV>) -> Seq<char>
    decreases ts.len(),
{
    if ts.len() == 0 {
        Seq::empty()
    } else {
        task_lines(ts.drop_last()) + join(typst_parts(ts.last()), " "@) + "\n"@
    }
}

fn contains_key(seen: &Vec<TaskKey>, k: &TaskKey) -> (r: bool)
    ensures
        r == keys_view(seen@).contains(k@),
{
    let mut i: usize = 0;
    while i < seen.len()
        invariant
            i <= seen.len(),
            forall|j: int| 0 <= j < i ==> keys_view(seen@)[j] != k@,
        decreases seen.len() - i,
    {
        if same_key(&seen[i], k) {
            assert(keys_view(seen@)[i as int] == k@);
            return true;
        }
        i = i + 1;
    }
    false
}

/// Renders a tasks section from the tasks its query returned, updating the
/// keys seen so far.
pub fn render_tasks(tasks: &Vec<TaskView>, dedup: bool, seen: &mut Vec<TaskKey>) -> (r: String)
    ensures
        ({
            let (shown, s) = shown_tasks(
                tasks@.map_values(|t: TaskView| t@),
                dedup,
                keys_view(old(seen)@),
            );
            r@ == tasks_section_text(shown) && keys_view(final(seen)@) == s
        }),
{
    let ghost tv = tasks@.map_values(|t: TaskView| t@);
    let ghost seen0 = keys_view(seen@);
    let mut out = String::new();
    let mut count: usize = 0;
    let mut i: usize = 0;
    while i < tasks.len()
        invariant
            i <= tasks.len(),
            tv == tasks@.map_values(|t: TaskView| t@),
            ({
                let (shown, s) = shown_tasks(tv.take(i as int), dedup, seen0);
                out@ == task_lines(shown) && keys_view(seen@) == s && count == shown.len()
            }),
            count <= i,
        decreases tasks.len() - i,
    {
        let task = &tasks[i];
        proof {
            assert(tv.take(i + 1).drop_last() =~= tv.take(i as int));
            assert(tv.take(i + 1).last() == task@);
        }
        let key = task_key(task);
        let ghost prev = shown_tasks(tv.take(i as int), dedup, seen0);
        proof {
            assert(key_of(tv.take(i + 1).last()) == key@);
            assert(prev.1 == keys_view(seen@));
        }
        if dedup && contains_key(seen, &key) {
            assert(shown_tasks(tv.take(i + 1), dedup, seen0) == prev);
        } else {
            let line = format_task_typst(task);
            push_str(&mut out, line.as_str());
            push_str(&mut out, "\n");
            if dedup {
                let ghost before = seen@;
                seen.push(key);
                proof {
                    assert(seen@ == before.push(key));
                    assert(keys_view(seen@) =~= keys_view(before).push(key@));
                }
            }
            count = count + 1;
            proof {
                let next = shown_tasks(tv.take(i + 1), dedup, seen0);
                assert(next.0 == prev.0.push(task@));
                assert(next.0.drop_last() =~= prev.0);
                assert(out@ =~= task_lines(next.0));
            }
        }
        i = i + 1;
    }
    assert(tv.take(tasks.len() as int) =~= tv);
    if count == 0 {
        push_str(&mut out, "No tasks.\n");
        proof {
            let (shown, s) = shown_tasks(tv, dedup, seen0);
            assert(shown.len() == 0);
            assert(task_lines(shown) =~= Seq::<char>::empty());
        }
    }
    out
}


/// A section's status decides which tasks it lists: pending ones when no
/// status is given and for "pending" (the same filter), done ones for
/// "done", all of them for "all"; any other status is refused.
pub proof fn law_section_status(s: Seq<char>)
    ensures
        section_done_spec(None) == Ok::<Option<bool>, Seq<char>>(Some(false)),
        section_done_spec(Some("pending"@)) == section_done_spec(None),
        section_done_spec(Some("done"@)) == Ok::<Option<bool>, Seq<char>>(Some(true)),
        section_done_spec(Some("all"@)) == Ok::<Option<bool>, Seq<char>>(None),
        s != "pending"@ && s != "done"@ && s != "all"@ ==> section_done_spec(Some(s)) is Err,
{
    reveal_strlit("pending");
    reveal_strlit("done");
    reveal_strlit("all");
    let p = "pending"@;
    assert(p != "done"@ && p != "all"@) by {
        assert(p[0] == 'p');
    }
    let d = "done"@;
    assert(d != "all"@) by {
        assert(d[0] == 'd');
    }
}

}
