//! `list`: the task filter of the command line, sort specifications, and
//! the Typst listing of tasks grouped by project, folder, file and
//! heading.

use vstd::prelude::*;
use crate::cli::format::{format_task_typst, typst_parts};
use crate::cli::util::{shorten_home, shorten_home_spec};
use crate::cli::QueryOpts;
use crate::paths::{
    components, components_of, file_name, file_name_of, parent, parent_of, paths_equal, same_path,
    strip_prefix, strip_prefix_of,
};
use crate::store::{SortDir, SortField, SortSpec, TaskFilter, TaskView, TaskViewV};
use crate::text::{
    chars_of, copy_opt, copy_string, find_first, join, lemma_find_from, push_char, push_str,
    slice_vec, split_on, split_str, str_eq, string_of, strs,
};

verus! {

broadcast use vstd::string::group_string_axioms;

/// Filter for task status.
#[derive(Debug, Clone, Copy, PartialEq, Eq, Structural)]
pub enum StatusFilter {
    Done,
    Pending,
    All,
}

/// Arguments of `list`.
#[derive(Debug, Clone, PartialEq)]
pub struct ListArgs {
    /// Filter by status (default: pending).
    pub status: Option<StatusFilter>,
    /// Filter by folder prefix.
    pub folder: Option<String>,
    /// Filter by watch root.
    pub watch_root: Option<String>,
    /// Limit output to N items.
    pub limit: Option<usize>,
    /// Sort order (repeatable).
    pub sort: Vec<SortSpec>,
    /// Filter expression.
    pub filter: Option<String>,
    /// Extra heading levels for all Typst output headings.
    pub heading_offset: usize,
    pub query: QueryOpts,
}

// ---------------------------------------------------------------------------
// Sort specifications
// ---------------------------------------------------------------------------

/// The sort field named `name`.
pub open spec fn sort_field_named(name: Seq<char>) -> Option<SortField> {
    if name == "due"@ {
        Some(SortField::Due)
    } else if name == "start"@ {
        Some(SortField::Start)
    } else if name == "rank"@ {
        Some(SortField::Rank)
    } else if name == "id"@ {
        Some(SortField::Id)
    } else if name == "file"@ {
        Some(SortField::File)
    } else if name == "position"@ || name == "pos"@ {
        Some(SortField::Position)
    } else if name == "title"@ {
        Some(SortField::Title)
    } else if name == "status"@ {
        Some(SortField::Status)
    } else {
        None
    }
}

/// A `field[:dir]` text split at its first `:`.
pub open spec fn split_colon(s: Seq<char>) -> (Seq<char>, Option<Seq<char>>) {
    match find_first(s, seq![':']) {
        Some(i) => (s.take(i), Some(s.skip(i + 1))),
        None => (s, None),
    }
}

/// The sort specification of a `field[:dir]` text; an unknown direction
/// gives its error text followed by `hint`.
pub open spec fn sort_spec_parse(input: Seq<char>, hint: Seq<char>) -> Result<SortSpec, Seq<char>> {
    let (f, d) = split_colon(input);
    match sort_field_named(f) {
        None => Err("unknown sort field: "@ + f),
        Some(field) => match d {
            None => Ok(SortSpec { field, dir: SortDir::Asc }),
            Some(x) => if x == "asc"@ {
                Ok(SortSpec { field, dir: SortDir::Asc })
            } else if x == "desc"@ {
                Ok(SortSpec { field, dir: SortDir::Desc })
            } else {
                Err("unknown sort direction: "@ + x + hint)
            },
        },
    }
}

fn sort_field_of(name: &str) -> (r: Option<SortField>)
    ensures
        r == sort_field_named(name@),
{
    if str_eq(name, "due") {
        Some(SortField::Due)
    } else if str_eq(name, "start") {
        Some(SortField::Start)
    } else if str_eq(name, "rank") {
        Some(SortField::Rank)
    } else if str_eq(name, "id") {
        Some(SortField::Id)
    } else if str_eq(name, "file") {
        Some(SortField::File)
    } else if str_eq(name, "position") || str_eq(name, "pos") {
        Some(SortField::Position)
    } else if str_eq(name, "title") {
        Some(SortField::Title)
    } else if str_eq(name, "status") {
        Some(SortField::Status)
    } else {
        None
    }
}

/// Parses a `field[:dir]` sort specification; an unknown direction gives
/// its error text followed by `hint`.
pub fn parse_sort_spec_with(input: &str, hint: &str) -> (r: Result<SortSpec, String>)
    ensures
        match r {
            Ok(s) => sort_spec_parse(input@, hint@) == Ok::<SortSpec, Seq<char>>(s),
            Err(e) => sort_spec_parse(input@, hint@) == Err::<SortSpec, Seq<char>>(e@),
        },
{
    let v = chars_of(input);
    let colon = chars_of(":");
    proof {
        reveal_strlit(":");
        assert(colon@ =~= seq![':']);
    }
    let (field_str, dir_str) = match crate::text::find_in(&v, &colon, 0) {
        Some(i) => {
            assert(i < v.len());
            let f = slice_vec(&v, 0, i);
            let d = slice_vec(&v, i + 1, v.len());
            assert(f@ =~= input@.take(i as int));
            assert(d@ =~= input@.skip(i + 1));
            (string_of(&f), Some(string_of(&d)))
        },
        None => (input.to_string(), None),
    };
    let field = match sort_field_of(field_str.as_str()) {
        Some(f) => f,
        None => {
            let mut m = String::new();
            push_str(&mut m, "unknown sort field: ");
            push_str(&mut m, field_str.as_str());
            return Err(m);
        },
    };
    match dir_str {
        None => Ok(SortSpec { field, dir: SortDir::Asc }),
        Some(d) => {
            if str_eq(d.as_str(), "asc") {
                Ok(SortSpec { field, dir: SortDir::Asc })
            } else if str_eq(d.as_str(), "desc") {
                Ok(SortSpec { field, dir: SortDir::Desc })
            } else {
                let mut m = String::new();
                push_str(&mut m, "unknown sort direction: ");
                push_str(&mut m, d.as_str());
                push_str(&mut m, hint);
                Err(m)
            }
        },
    }
}

/// Parses a `field[:dir]` sort specification (`due`, `start`, `rank`,
/// `id`, `file`, `position`/`pos`, `title`, `status`; `asc` by default).
pub fn parse_sort_spec(input: &str) -> (r: Result<SortSpec, String>)
    ensures
        match r {
            Ok(s) => sort_spec_parse(input@, " (use asc or desc)"@) == Ok::<SortSpec, Seq<char>>(s),
            Err(e) => sort_spec_parse(input@, " (use asc or desc)"@) == Err::<SortSpec, Seq<char>>(
                e@,
            ),
        },
{
    parse_sort_spec_with(input, " (use asc or desc)")
}

// ---------------------------------------------------------------------------
// The task filter
// ---------------------------------------------------------------------------

/// The `done` filter of a status: done only, pending only (the default),
/// or everything.
pub open spec fn done_filter_spec(status: Option<StatusFilter>) -> Option<bool> {
    match status {
        Some(StatusFilter::Done) => Some(true),
        Some(StatusFilter::Pending) | None => Some(false),
        Some(StatusFilter::All) => None,
    }
}

impl ListArgs {
    /// The `done` filter for the store: `Some(true)` done only,
    /// `Some(false)` pending only, `None` everything.
    pub fn done_filter(&self) -> (r: Option<bool>)
        ensures
            r == done_filter_spec(self.status),
    {
        match self.status {
            Some(StatusFilter::Done) => Some(true),
            Some(StatusFilter::Pending) | None => Some(false),
            Some(StatusFilter::All) => None,
        }
    }

    /// The store filter of these arguments.
    pub fn task_filter(&self) -> (r: TaskFilter)
        ensures
            r.done == done_filter_spec(self.status),
            crate::text::opt_view(&r.folder) == crate::text::opt_view(&self.folder),
            crate::text::opt_view(&r.watch_root) == crate::text::opt_view(&self.watch_root),
            r.limit == self.limit,
            r.sort@ == self.sort@,
            crate::text::opt_view(&r.expr) == crate::text::opt_view(&self.filter),
    {
        TaskFilter {
            done: self.done_filter(),
            folder: copy_opt(&self.folder),
            watch_root: copy_opt(&self.watch_root),
            limit: self.limit,
            sort: self.sort.clone(),
            expr: copy_opt(&self.filter),
        }
    }
}

// ---------------------------------------------------------------------------
// File segments
// ---------------------------------------------------------------------------

/// The display segments of a file: its project's name and the folders
/// between the project and the file.
#[derive(Debug, Clone, PartialEq)]
pub struct FileSegments {
    pub root: String,
    pub dirs: Vec<String>,
}

/// A name, or `?` when there is none.
pub open spec fn or_question(n: Option<Seq<char>>) -> Seq<char> {
    match n {
        Some(x) => x,
        None => "?"@,
    }
}

/// The project name of a file: the watch root's name when the file lies
/// under it, else the name of the file's folder.
pub open spec fn segment_root(path: Seq<char>, root: Option<Seq<char>>) -> Seq<char> {
    match root {
        Some(r) => match strip_prefix_of(path, r) {
            Some(_) => or_question(file_name_of(r)),
            None => parent_name(path),
        },
        None => parent_name(path),
    }
}

/// The name of a path's parent folder, or `?`.
pub open spec fn parent_name(path: Seq<char>) -> Seq<char> {
    match parent_of(path) {
        Some(p) => or_question(file_name_of(p)),
        None => "?"@,
    }
}

/// The folders between the watch root and the file, when the file lies
/// under the root.
pub open spec fn segment_dirs(path: Seq<char>, root: Option<Seq<char>>) -> Seq<Seq<char>> {
    match root {
        Some(r) => match strip_prefix_of(path, r) {
            Some(rel) => match parent_of(rel) {
                Some(p) => components_of(p),
                None => Seq::empty(),
            },
            None => Seq::empty(),
        },
        None => Seq::empty(),
    }
}

fn name_or_question(n: Option<String>) -> (r: String)
    ensures
        r@ == or_question(crate::text::opt_view(&n)),
{
    match n {
        Some(x) => x,
        None => "?".to_string(),
    }
}

fn parent_name_of(path: &str) -> (r: String)
    ensures
        r@ == parent_name(path@),
{
    match parent(path) {
        Some(p) => name_or_question(file_name(p.as_str())),
        None => "?".to_string(),
    }
}

/// Computes the display segments of a file.
pub fn file_segments(file_path: &str, watch_root: Option<&str>) -> (r: FileSegments)
    ensures
        r.root@ == segment_root(
            file_path@,
            match watch_root {
                Some(w) => Some(w@),
                None => None,
            },
        ),
        strs(r.dirs@) == segment_dirs(
            file_path@,
            match watch_root {
                Some(w) => Some(w@),
                None => None,
            },
        ),
{
    if let Some(root) = watch_root {
        if let Some(rel) = strip_prefix(file_path, root) {
            let root_name = name_or_question(file_name(root));
            let dirs = match parent(rel.as_str()) {
                Some(p) => components(p.as_str()),
                None => Vec::new(),
            };
            return FileSegments { root: root_name, dirs };
        }
    }
    FileSegments { root: parent_name_of(file_path), dirs: Vec::new() }
}

// ---------------------------------------------------------------------------
// The Typst listing
// ---------------------------------------------------------------------------

/// `n` heading marks.
pub open spec fn marks(n: int) -> Seq<char> {
    Seq::new(n as nat, |i: int| '=')
}

/// A heading line at level `n`.
pub open spec fn heading_line(n: int, text: Seq<char>) -> Seq<char> {
    marks(n) + " "@ + text + "\n"@
}

/// The number of leading pieces on which `a` and `b` agree, from `k` on.
pub open spec fn common_prefix(a: Seq<Seq<char>>, b: Seq<Seq<char>>, k: int) -> int
    decreases a.len() - k,
{
    if 0 <= k && k < a.len() && k < b.len() && a[k] == b[k] {
        common_prefix(a, b, k + 1)
    } else {
        k
    }
}

/// Heading lines for `xs[from..]`, the `i`-th at level `base + i`.
pub open spec fn heading_lines(xs: Seq<Seq<char>>, from: int, base: int) -> Seq<char>
    decreases xs.len(),
{
    if xs.len() <= from || xs.len() == 0 {
        Seq::empty()
    } else {
        heading_lines(xs.drop_last(), from, base) + heading_line(
            base + xs.len() - 1,
            xs.last(),
        )
    }
}

/// What the listing has emitted so far: the current project, folders,
/// file and headings, and whether anything was emitted.
pub struct ListState {
    pub root: Seq<char>,
    pub dirs: Seq<Seq<char>>,
    pub file: Seq<char>,
    pub headings: Seq<Seq<char>>,
    pub has_output: bool,
}

/// The headings of a task's milestone (`A > B`).
pub open spec fn milestone_headings(m: Option<Seq<char>>) -> Seq<Seq<char>> {
    match m {
        Some(x) => split_on(x, " > "@),
        None => Seq::empty(),
    }
}

/// One task of the listing: a project heading when the project changes
/// (a blank line before all but the first), folder and file headings when
/// the file changes, milestone headings not yet shown, then the task.
pub open spec fn list_step(s: ListState, out: Seq<char>, t: TaskViewV, off: int, home: Seq<char>) -> (
    ListState,
    Seq<char>,
) {
    let root = segment_root(t.file_path, t.watch_root);
    let dirs = segment_dirs(t.file_path, t.watch_root);
    let hs = milestone_headings(t.milestone);
    let (s1, o1) = if s.root != root {
        (
            ListState {
                root: root,
                dirs: Seq::empty(),
                file: Seq::empty(),
                headings: Seq::empty(),
                has_output: true,
            },
            out + (if s.has_output { "\n"@ } else { Seq::empty() }) + heading_line(2 + off, root),
        )
    } else {
        (s, out)
    };
    let (s2, o2) = if !same_path(s1.file, t.file_path) {
        let m = common_prefix(s1.dirs, dirs, 0);
        (
            ListState { dirs: dirs, file: t.file_path, headings: Seq::empty(), ..s1 },
            o1 + heading_lines(dirs, m, 3 + off) + marks(3 + off + dirs.len()) + " `"@ + or_question(
                file_name_of(t.file_path),
            ) + "` "@ + shorten_home_spec(t.file_path, home) + "\n"@,
        )
    } else {
        (s1, o1)
    };
    let hm = common_prefix(s2.headings, hs, 0);
    (
        ListState { headings: hs, ..s2 },
        o2 + heading_lines(hs, hm, 3 + off + dirs.len() + 1) + join(typst_parts(t), " "@) + "\n"@,
    )
}

/// The listing of the first `n` tasks, and the state after them.
pub open spec fn list_fold(ts: Seq<TaskViewV>, off: int, home: Seq<char>) -> (ListState, Seq<char>)
    decreases ts.len(),
{
    if ts.len() == 0 {
        (
            ListState {
                root: Seq::empty(),
                dirs: Seq::empty(),
                file: Seq::empty(),
                headings: Seq::empty(),
                has_output: false,
            },
            Seq::empty(),
        )
    } else {
        let (s, o) = list_fold(ts.drop_last(), off, home);
        list_step(s, o, ts.last(), off, home)
    }
}

/// The plain form of task views.
pub open spec fn views(ts: Seq<TaskView>) -> Seq<TaskViewV> {
    ts.map_values(|t: TaskView| t@)
}

fn push_marks(out: &mut String, n: u128)
    ensures
        final(out)@ == old(out)@ + marks(n as int),
{
    let ghost start = out@;
    let mut k: u128 = 0;
    while k < n
        invariant
            k <= n,
            out@ == start + marks(k as int),
        decreases n - k,
    {
        push_char(out, '=');
        assert(out@ =~= start + marks(k + 1));
        k = k + 1;
    }
}

fn push_heading(out: &mut String, n: u128, text: &str)
    ensures
        final(out)@ == old(out)@ + heading_line(n as int, text@),
{
    push_marks(out, n);
    push_str(out, " ");
    push_str(out, text);
    push_str(out, "\n");
    assert(final(out)@ =~= old(out)@ + heading_line(n as int, text@));
}

fn common_prefix_of(a: &Vec<String>, b: &Vec<String>) -> (r: usize)
    ensures
        r as int == common_prefix(strs(a@), strs(b@), 0),
        r <= a.len(),
        r <= b.len(),
{
    let mut k: usize = 0;
    while k < a.len() && k < b.len() && str_eq(a[k].as_str(), b[k].as_str())
        invariant
            k <= a.len(),
            k <= b.len(),
            common_prefix(strs(a@), strs(b@), k as int) == common_prefix(strs(a@), strs(b@), 0),
        decreases a.len() - k,
    {
        proof {
            assert(strs(a@)[k as int] == a@[k as int]@);
            assert(strs(b@)[k as int] == b@[k as int]@);
        }
        k = k + 1;
    }
    proof {
        if k < a.len() && k < b.len() {
            assert(strs(a@)[k as int] == a@[k as int]@);
            assert(strs(b@)[k as int] == b@[k as int]@);
        }
    }
    k
}

fn push_heading_lines(out: &mut String, xs: &Vec<String>, from: usize, base: u128)
    requires
        from <= xs.len(),
        base + xs.len() <= u128::MAX,
    ensures
        final(out)@ == old(out)@ + heading_lines(strs(xs@), from as int, base as int),
{
    let ghost start = out@;
    let mut i = from;
    proof {
        lemma_heading_lines_empty(strs(xs@).take(from as int), from as int, base as int);
    }
    while i < xs.len()
        invariant
            from <= i <= xs.len(),
            base + xs.len() <= u128::MAX,
            out@ == start + heading_lines(strs(xs@).take(i as int), from as int, base as int),
        decreases xs.len() - i,
    {
        push_heading(out, base + i as u128, xs[i].as_str());
        proof {
            let t = strs(xs@).take(i + 1);
            assert(t.drop_last() =~= strs(xs@).take(i as int));
            assert(t.last() == xs@[i as int]@);
        }
        i = i + 1;
    }
    assert(strs(xs@).take(xs.len() as int) =~= strs(xs@));
}

proof fn lemma_heading_lines_empty(xs: Seq<Seq<char>>, from: int, base: int)
    requires
        xs.len() <= from,
    ensures
        heading_lines(xs, from, base) == Seq::<char>::empty(),
{
}

fn copy_strings_vec(v: &Vec<String>) -> (r: Vec<String>)
    ensures
        strs(r@) == strs(v@),
{
    crate::text::copy_strings(v)
}

/// Formats tasks as Typst markup grouped by project, folder, file and
/// milestone heading; `home` is shortened to `~` in file paths and all
/// headings are `heading_offset` levels deeper.
pub fn format_typst_list(tasks: &Vec<TaskView>, heading_offset: usize, home: &str) -> (r: String)
    ensures
        r@ == list_fold(views(tasks@), heading_offset as int, home@).1,
{
    let ghost off = heading_offset as int;
    let mut out = String::new();
    let mut has_output = false;
    let mut cur_root = String::new();
    let mut cur_dirs: Vec<String> = Vec::new();
    let mut cur_file = String::new();
    let mut cur_headings: Vec<String> = Vec::new();
    let mut i: usize = 0;
    while i < tasks.len()
        invariant
            i <= tasks.len(),
            off == heading_offset as int,
            ({
                let (s, o) = list_fold(views(tasks@).take(i as int), off, home@);
                &&& s.root == cur_root@
                &&& s.dirs == strs(cur_dirs@)
                &&& s.file == cur_file@
                &&& s.headings == strs(cur_headings@)
                &&& s.has_output == has_output
                &&& o == out@
            }),
        decreases tasks.len() - i,
    {
        let task = &tasks[i];
        let ghost tv = task@;
        proof {
            let t = views(tasks@).take(i + 1);
            assert(t.drop_last() =~= views(tasks@).take(i as int));
            assert(t.last() == tv);
        }
        let segments = file_segments(
            task.file_path.as_str(),
            match &task.watch_root {
                Some(w) => Some(w.as_str()),
                None => None,
            },
        );
        let headings: Vec<String> = match &task.milestone {
            Some(m) => {
                proof {
                    reveal_strlit(" > ");
                }
                split_str(m.as_str(), " > ")
            },
            None => Vec::new(),
        };
        assert(strs(headings@) == milestone_headings(tv.milestone));
        if !str_eq(cur_root.as_str(), segments.root.as_str()) {
            if has_output {
                push_str(&mut out, "\n");
            }
            push_heading(&mut out, 2 + heading_offset as u128, segments.root.as_str());
            cur_root = copy_string(&segments.root);
            cur_dirs = Vec::new();
            cur_file = String::new();
            cur_headings = Vec::new();
            has_output = true;
            assert(strs(cur_dirs@) =~= Seq::<Seq<char>>::empty());
            assert(strs(cur_headings@) =~= Seq::<Seq<char>>::empty());
        }
        if !paths_equal(cur_file.as_str(), task.file_path.as_str()) {
            let m = common_prefix_of(&cur_dirs, &segments.dirs);
            push_heading_lines(&mut out, &segments.dirs, m, 3 + heading_offset as u128);
            push_marks(&mut out, 3 + heading_offset as u128 + segments.dirs.len() as u128);
            push_str(&mut out, " `");
            let fname = name_or_question(file_name(task.file_path.as_str()));
            push_str(&mut out, fname.as_str());
            push_str(&mut out, "` ");
            let short = shorten_home(task.file_path.as_str(), home);
            push_str(&mut out, short.as_str());
            push_str(&mut out, "\n");
            cur_dirs = copy_strings_vec(&segments.dirs);
            cur_file = copy_string(&task.file_path);
            cur_headings = Vec::new();
            assert(strs(cur_headings@) =~= Seq::<Seq<char>>::empty());
        }
        let hm = common_prefix_of(&cur_headings, &headings);
        push_heading_lines(
            &mut out,
            &headings,
            hm,
            3 + heading_offset as u128 + segments.dirs.len() as u128 + 1,
        );
        let line = format_task_typst(task);
        push_str(&mut out, line.as_str());
        push_str(&mut out, "\n");
        cur_headings = headings;
        i = i + 1;
    }
    assert(views(tasks@).take(tasks.len() as int) =~= views(tasks@));
    out
}

}
