//! The task store's domain types, and the logic that runs around the
//! database: building task queries, assembling query rows into views,
//! choosing how a task ID is looked up, and summarising counts.
//!
//! Paths are held as their text.

use vstd::prelude::*;
use crate::filter_expr::{
    expr_translation, translate_expr, FilterErrV, FilterExprError, FragV, SqlFragment,
};
use crate::id::{parse_task_id, resolve_task_id_spec, uuid_parsed};
use crate::eval::{date_text, format_date, tasks_view, Datetime, EvalResult, Task, TaskV};
use crate::text::{
    copy_opt, copy_string, copy_strings, dec_int, dec_nat, extend_strings, join, join_strings,
    opt_view, push_i64, push_str, push_usize, strs,
};

verus! {

broadcast use vstd::string::group_string_axioms;

// ---------------------------------------------------------------------------
// Domain types
// ---------------------------------------------------------------------------

/// A `.typ` file that has been evaluated and indexed.
#[derive(Debug, Clone, PartialEq)]
pub struct TaskFile {
    pub id: Option<i64>,
    pub file_path: String,
    pub watch_root: Option<String>,
    pub title: Option<String>,
    pub eval_hash: String,
    pub updated_at: String,
}

/// A task extracted from a checklist item in a `TaskFile`.
#[derive(Debug, Clone, PartialEq)]
pub struct TaskRecord {
    pub id: Option<i64>,
    pub task_file_id: i64,
    pub title: String,
    pub is_done: bool,
    pub position: i32,
    /// Heading path (e.g. "Header 1 > Subheader 1.1").
    pub milestone: Option<String>,
    /// Due date (YYYY-MM-DD).
    pub due: Option<String>,
    /// Start date (YYYY-MM-DD).
    pub start: Option<String>,
    /// Rank (positive integer, higher = more important).
    pub rank: Option<i64>,
    /// User-assigned task ID (UUIDv7).
    pub task_id: Option<String>,
}

/// A property attached to a task.
#[derive(Debug, Clone, PartialEq)]
pub struct TaskProperty {
    pub id: Option<i64>,
    pub task_id: i64,
    pub kind: PropertyKind,
    pub key: String,
    pub value: String,
}

/// The kinds of task properties.
#[derive(Debug, Clone, Copy, PartialEq, Eq, Structural)]
pub enum PropertyKind {
    Due,
    Start,
    Rank,
    Tag,
    Id,
}

/// The stored name of a property kind.
pub open spec fn kind_name(k: PropertyKind) -> Seq<char> {
    match k {
        PropertyKind::Due => "mindtape.due"@,
        PropertyKind::Start => "mindtape.start"@,
        PropertyKind::Rank => "mindtape.rank"@,
        PropertyKind::Tag => "mindtape.tag"@,
        PropertyKind::Id => "mindtape.id"@,
    }
}

impl PropertyKind {
    /// The stored name of this kind.
    pub fn as_str(&self) -> (r: &'static str)
        ensures
            r@ == kind_name(*self),
    {
        match self {
            PropertyKind::Due => "mindtape.due",
            PropertyKind::Start => "mindtape.start",
            PropertyKind::Rank => "mindtape.rank",
            PropertyKind::Tag => "mindtape.tag",
            PropertyKind::Id => "mindtape.id",
        }
    }

    /// The kind with the stored name `kind_str`, if any.
    pub fn try_from_str(kind_str: &str) -> (r: Option<PropertyKind>)
        ensures
            r matches Some(k) ==> kind_name(k) == kind_str@,
            r is None ==> forall|k: PropertyKind| kind_name(k) != kind_str@,
    {
        proof {
            reveal_strlit("mindtape.due");
            reveal_strlit("mindtape.start");
            reveal_strlit("mindtape.rank");
            reveal_strlit("mindtape.tag");
            reveal_strlit("mindtape.id");
        }
        if crate::text::str_eq(kind_str, "mindtape.due") {
            Some(PropertyKind::Due)
        } else if crate::text::str_eq(kind_str, "mindtape.start") {
            Some(PropertyKind::Start)
        } else if crate::text::str_eq(kind_str, "mindtape.rank") {
            Some(PropertyKind::Rank)
        } else if crate::text::str_eq(kind_str, "mindtape.tag") {
            Some(PropertyKind::Tag)
        } else if crate::text::str_eq(kind_str, "mindtape.id") {
            Some(PropertyKind::Id)
        } else {
            proof {
                assert forall|k: PropertyKind| kind_name(k) != kind_str@ by {
                    match k {
                        PropertyKind::Due => {},
                        PropertyKind::Start => {},
                        PropertyKind::Rank => {},
                        PropertyKind::Tag => {},
                        PropertyKind::Id => {},
                    }
                }
            }
            None
        }
    }
}

/// A `#let` binding exported by a `TaskFile`'s module scope.
#[derive(Debug, Clone, PartialEq)]
pub struct FileBinding {
    pub id: Option<i64>,
    pub task_file_id: i64,
    pub name: String,
    pub value_type: String,
    pub value_json: String,
}

// ---------------------------------------------------------------------------
// From an evaluation result to records
// ---------------------------------------------------------------------------

/// The canonical ID under which an evaluated task is stored: its `#id`
/// text, where that resolves to a UUIDv7.
pub open spec fn stored_id(t: TaskV) -> Option<Seq<char>> {
    match t.id {
        Some(s) => match resolve_task_id_spec(s, uuid_parsed(s)) {
            Ok(c) => Some(c),
            Err(_) => None,
        },
        None => None,
    }
}

/// The evaluated tasks that are stored, in order, each with its canonical
/// ID; a task without a valid UUIDv7 ID is left out.
pub open spec fn stored_tasks(ts: Seq<TaskV>) -> Seq<(TaskV, Seq<char>)>
    decreases ts.len(),
{
    if ts.len() == 0 {
        Seq::empty()
    } else {
        stored_tasks(ts.drop_last()) + match stored_id(ts.last()) {
            Some(c) => seq![(ts.last(), c)],
            None => Seq::empty(),
        }
    }
}

/// An optional date as its `YYYY-MM-DD` text.
pub open spec fn opt_date_text(d: Option<Datetime>) -> Option<Seq<char>> {
    match d {
        Some(x) => Some(date_text(x)),
        None => None,
    }
}

/// The properties of a stored task with canonical ID `id`: the ID, the due
/// date, the start date, the rank, then the tags in order.
pub open spec fn task_props_spec(t: TaskV, id: Seq<char>) -> Seq<(PropertyKind, Seq<char>, Seq<char>)> {
    seq![(PropertyKind::Id, "id"@, id)] + (match t.due {
        Some(d) => seq![(PropertyKind::Due, "due"@, date_text(d))],
        None => Seq::empty(),
    }) + (match t.start {
        Some(d) => seq![(PropertyKind::Start, "start"@, date_text(d))],
        None => Seq::empty(),
    }) + (match t.rank {
        Some(n) => seq![(PropertyKind::Rank, "rank"@, dec_int(n as int))],
        None => Seq::empty(),
    }) + t.tags.map_values(|g: Seq<char>| (PropertyKind::Tag, "tag"@, g))
}

/// The plain form of a property: `(kind, key, value)`.
pub open spec fn prop_view(p: TaskProperty) -> (PropertyKind, Seq<char>, Seq<char>) {
    (p.kind, p.key@, p.value@)
}

/// A task record made, not stored yet, from a task and its canonical ID.
pub open spec fn record_matches(r: TaskRecord, t: TaskV, id: Seq<char>) -> bool {
    &&& r.id is None
    &&& r.task_file_id == 0
    &&& r.title@ == t.title
    &&& r.is_done == t.done
    &&& r.position == t.position as i32
    &&& opt_view(&r.milestone) == t.milestone
    &&& opt_view(&r.due) == opt_date_text(t.due)
    &&& opt_view(&r.start) == opt_date_text(t.start)
    &&& r.rank == t.rank
    &&& opt_view(&r.task_id) == Some(id)
}

/// A binding record made, not stored yet, from `(name, type, JSON)`.
pub open spec fn binding_matches(r: FileBinding, b: (String, String, String)) -> bool {
    &&& r.id is None
    &&& r.task_file_id == 0
    &&& r.name@ == b.0@
    &&& r.value_type@ == b.1@
    &&& r.value_json@ == b.2@
}

fn opt_date(d: &Option<Datetime>) -> (r: Option<String>)
    ensures
        opt_view(&r) == opt_date_text(*d),
{
    match d {
        Some(x) => Some(format_date(x)),
        None => None,
    }
}

fn prop(kind: PropertyKind, key: &str, value: String) -> (r: TaskProperty)
    ensures
        prop_view(r) == (kind, key@, value@),
        r.id is None,
        r.task_id == 0,
{
    TaskProperty { id: None, task_id: 0, kind, key: key.to_string(), value }
}

/// The properties of one stored task, none of them stored yet.
fn task_props(t: &Task, id: &String) -> (r: Vec<TaskProperty>)
    ensures
        r@.map_values(|p: TaskProperty| prop_view(p)) == task_props_spec(t@, id@),
        forall|i: int| 0 <= i < r.len() ==> (#[trigger] r@[i]).id is None && r@[i].task_id == 0,
{
    let mut props: Vec<TaskProperty> = Vec::new();
    props.push(prop(PropertyKind::Id, "id", copy_string(id)));
    if let Some(dt) = &t.due {
        props.push(prop(PropertyKind::Due, "due", format_date(dt)));
    }
    if let Some(dt) = &t.start {
        props.push(prop(PropertyKind::Start, "start", format_date(dt)));
    }
    if let Some(n) = t.rank {
        let mut v = String::new();
        push_i64(&mut v, n);
        props.push(prop(PropertyKind::Rank, "rank", v));
    }
    let ghost head = props@.map_values(|p: TaskProperty| prop_view(p));
    let ghost want_head = seq![(PropertyKind::Id, "id"@, id@)] + (match t@.due {
        Some(d) => seq![(PropertyKind::Due, "due"@, date_text(d))],
        None => Seq::empty(),
    }) + (match t@.start {
        Some(d) => seq![(PropertyKind::Start, "start"@, date_text(d))],
        None => Seq::empty(),
    }) + (match t@.rank {
        Some(n) => seq![(PropertyKind::Rank, "rank"@, dec_int(n as int))],
        None => Seq::empty(),
    });
    assert(head =~= want_head);
    let n0 = props.len();
    let mut i: usize = 0;
    while i < t.tags.len()
        invariant
            i <= t.tags.len(),
            props.len() == n0 + i,
            head.len() == n0,
            props@.map_values(|p: TaskProperty| prop_view(p)) == head + strs(t.tags@).take(
                i as int,
            ).map_values(|g: Seq<char>| (PropertyKind::Tag, "tag"@, g)),
            forall|k: int| 0 <= k < props.len() ==> (#[trigger] props@[k]).id is None
                && props@[k].task_id == 0,
        decreases t.tags.len() - i,
    {
        let p = prop(PropertyKind::Tag, "tag", copy_string(&t.tags[i]));
        let ghost before = props@;
        props.push(p);
        proof {
            let want = head + strs(t.tags@).take(i + 1).map_values(
                |g: Seq<char>| (PropertyKind::Tag, "tag"@, g),
            );
            let prev = head + strs(t.tags@).take(i as int).map_values(
                |g: Seq<char>| (PropertyKind::Tag, "tag"@, g),
            );
            assert(props@ == before.push(p));
            assert(strs(t.tags@)[i as int] == t.tags@[i as int]@);
            let got = props@.map_values(|p: TaskProperty| prop_view(p));
            assert(got.len() == want.len());
            assert forall|k: int| 0 <= k < got.len() implies got[k] == want[k] by {
                if k < before.len() {
                    assert(props@[k] == before[k]);
                    assert(before.map_values(|p: TaskProperty| prop_view(p))[k] == prev[k]);
                    if k >= head.len() {
                        assert(want[k] == prev[k]);
                    } else {
                        assert(want[k] == head[k]);
                    }
                } else {
                    assert(props@[k] == p);
                }
            }
            assert(got =~= want);
        }
        i = i + 1;
    }
    assert(strs(t.tags@).take(t.tags.len() as int) =~= strs(t.tags@));
    props
}

/// Converts an evaluation result into store records: the file (not stored
/// yet, no update time), one record per task whose `#id` resolves to a
/// UUIDv7 (tasks without one are not stored), the properties of each such
/// task, and the bindings.
pub fn to_store_records(
    result: &EvalResult,
    file_path: &str,
    content_hash: &str,
    watch_root: Option<&str>,
) -> (r: (TaskFile, Vec<TaskRecord>, Vec<Vec<TaskProperty>>, Vec<FileBinding>))
    ensures
        r.0.id is None,
        r.0.file_path@ == file_path@,
        opt_view(&r.0.watch_root) == (match watch_root {
            Some(w) => Some(w@),
            None => None::<Seq<char>>,
        }),
        opt_view(&r.0.title) == opt_view(&result.title),
        r.0.eval_hash@ == content_hash@,
        r.0.updated_at@ == Seq::<char>::empty(),
        r.1.len() == stored_tasks(tasks_view(result.tasks@)).len(),
        r.2.len() == r.1.len(),
        forall|i: int|
            0 <= i < r.1.len() ==> {
                let st = #[trigger] stored_tasks(tasks_view(result.tasks@))[i];
                &&& record_matches(r.1@[i], st.0, st.1)
                &&& r.2@[i]@.map_values(|p: TaskProperty| prop_view(p)) == task_props_spec(st.0, st.1)
            },
        r.3.len() == result.bindings.len(),
        forall|i: int|
            0 <= i < result.bindings.len() ==> #[trigger] binding_matches(r.3@[i], result.bindings@[i]),
{
    let task_file = TaskFile {
        id: None,
        file_path: file_path.to_string(),
        watch_root: match watch_root {
            Some(w) => Some(w.to_string()),
            None => None,
        },
        title: copy_opt(&result.title),
        eval_hash: content_hash.to_string(),
        updated_at: String::new(),
    };
    let ghost tv = tasks_view(result.tasks@);
    let mut records: Vec<TaskRecord> = Vec::new();
    let mut all_props: Vec<Vec<TaskProperty>> = Vec::new();
    let mut i: usize = 0;
    while i < result.tasks.len()
        invariant
            i <= result.tasks.len(),
            tv == tasks_view(result.tasks@),
            records.len() == stored_tasks(tv.take(i as int)).len(),
            all_props.len() == records.len(),
            forall|k: int|
                0 <= k < records.len() ==> {
                    let st = #[trigger] stored_tasks(tv.take(i as int))[k];
                    &&& record_matches(records@[k], st.0, st.1)
                    &&& all_props@[k]@.map_values(|p: TaskProperty| prop_view(p))
                        == task_props_spec(st.0, st.1)
                },
        decreases result.tasks.len() - i,
    {
        let t = &result.tasks[i];
        let ghost prev = stored_tasks(tv.take(i as int));
        assert(tv.take(i + 1).drop_last() =~= tv.take(i as int));
        assert(tv.take(i + 1).last() == t@);
        let canonical = match &t.id {
            Some(s) => match parse_task_id(s.as_str()) {
                Ok(c) => Some(c),
                Err(_) => None,
            },
            None => None,
        };
        assert(opt_view(&canonical) == stored_id(t@));
        match canonical {
            Some(c) => {
                #[verifier::truncate]
                let pos = t.position as i32;
                let rec = TaskRecord {
                    id: None,
                    task_file_id: 0,
                    title: copy_string(&t.title),
                    is_done: t.done,
                    position: pos,
                    milestone: copy_opt(&t.milestone),
                    due: opt_date(&t.due),
                    start: opt_date(&t.start),
                    rank: t.rank,
                    task_id: Some(copy_string(&c)),
                };
                let ps = task_props(t, &c);
                let ghost rb = records@;
                let ghost pb = all_props@;
                records.push(rec);
                all_props.push(ps);
                proof {
                    let now = stored_tasks(tv.take(i + 1));
                    assert(now == prev.push((t@, c@)));
                    assert forall|k: int| 0 <= k < records.len() implies {
                        let st = #[trigger] now[k];
                        &&& record_matches(records@[k], st.0, st.1)
                        &&& all_props@[k]@.map_values(|p: TaskProperty| prop_view(p))
                            == task_props_spec(st.0, st.1)
                    } by {
                        if k < rb.len() {
                            assert(records@[k] == rb[k]);
                            assert(all_props@[k] == pb[k]);
                            assert(now[k] == prev[k]);
                        }
                    }
                }
            },
            None => {
                assert(stored_tasks(tv.take(i + 1)) =~= prev);
            },
        }
        i = i + 1;
    }
    assert(tv.take(result.tasks.len() as int) =~= tv);
    let mut bindings: Vec<FileBinding> = Vec::new();
    let mut j: usize = 0;
    while j < result.bindings.len()
        invariant
            j <= result.bindings.len(),
            bindings.len() == j,
            forall|k: int| 0 <= k < j ==> #[trigger] binding_matches(bindings@[k], result.bindings@[k]),
        decreases result.bindings.len() - j,
    {
        let b = &result.bindings[j];
        let ghost before = bindings@;
        bindings.push(
            FileBinding {
                id: None,
                task_file_id: 0,
                name: copy_string(&b.0),
                value_type: copy_string(&b.1),
                value_json: copy_string(&b.2),
            },
        );
        assert(forall|k: int| 0 <= k < j ==> bindings@[k] == #[trigger] before[k]);
        assert(result.bindings@[j as int] == *b);
        assert(binding_matches(bindings@[j as int], result.bindings@[j as int]));
        j = j + 1;
    }
    (task_file, records, all_props, bindings)
}

// ---------------------------------------------------------------------------
// Sorting and filtering
// ---------------------------------------------------------------------------

/// Sortable fields for task queries.
#[derive(Debug, Clone, Copy, PartialEq, Eq, Structural)]
pub enum SortField {
    Due,
    Start,
    Rank,
    Id,
    File,
    Position,
    Title,
    Status,
}

/// Sort direction.
#[derive(Debug, Clone, Copy, PartialEq, Eq, Structural)]
pub enum SortDir {
    Asc,
    Desc,
}

/// A single sort specification (field + direction).
#[derive(Debug, Clone, Copy, PartialEq, Eq, Structural)]
pub struct SortSpec {
    pub field: SortField,
    pub dir: SortDir,
}

/// Filters for querying tasks.
///
/// All active filters combine with AND logic.
#[derive(Debug, Default, Clone, PartialEq)]
pub struct TaskFilter {
    pub done: Option<bool>,
    /// Only files whose path starts with this text.
    pub folder: Option<String>,
    /// Only files of this watch root (exact match).
    pub watch_root: Option<String>,
    pub limit: Option<usize>,
    /// Sort order.  Empty means file path, then position.
    pub sort: Vec<SortSpec>,
    /// Free-form filter expression, translated to SQL.
    pub expr: Option<String>,
}

/// The plain-value form of a [`TaskFilter`].
pub struct TaskFilterV {
    pub done: Option<bool>,
    pub folder: Option<Seq<char>>,
    pub watch_root: Option<Seq<char>>,
    pub limit: Option<usize>,
    pub sort: Seq<SortSpec>,
    pub expr: Option<Seq<char>>,
}

impl View for TaskFilter {
    type V = TaskFilterV;

    open spec fn view(&self) -> TaskFilterV {
        TaskFilterV {
            done: self.done,
            folder: opt_view(&self.folder),
            watch_root: opt_view(&self.watch_root),
            limit: self.limit,
            sort: self.sort@,
            expr: opt_view(&self.expr),
        }
    }
}

/// The column a sort field orders by.
pub open spec fn sort_column(f: SortField) -> Seq<char> {
    match f {
        SortField::Due => "t.due"@,
        SortField::Start => "t.start"@,
        SortField::Rank => "t.rank"@,
        SortField::Id => "t.task_id"@,
        SortField::File => "tf.file_path"@,
        SortField::Position => "t.position"@,
        SortField::Title => "t.title"@,
        SortField::Status => "t.is_done"@,
    }
}

/// The `ORDER BY` item of a sort specification: the column, the
/// direction, and `NULLS LAST` for the optional columns.
pub open spec fn sort_sql(spec: SortSpec) -> Seq<char> {
    let dir = match spec.dir {
        SortDir::Asc => "ASC"@,
        SortDir::Desc => "DESC"@,
    };
    let nulls = match spec.field {
        SortField::Due | SortField::Start | SortField::Rank | SortField::Id => " NULLS LAST"@,
        _ => ""@,
    };
    sort_column(spec.field) + " "@ + dir + nulls
}

/// Converts a sort specification to an `ORDER BY` item.
pub fn sort_spec_to_sql(spec: SortSpec) -> (r: String)
    ensures
        r@ == sort_sql(spec),
{
    let col = match spec.field {
        SortField::Due => "t.due",
        SortField::Start => "t.start",
        SortField::Rank => "t.rank",
        SortField::Id => "t.task_id",
        SortField::File => "tf.file_path",
        SortField::Position => "t.position",
        SortField::Title => "t.title",
        SortField::Status => "t.is_done",
    };
    let dir = match spec.dir {
        SortDir::Asc => "ASC",
        SortDir::Desc => "DESC",
    };
    let nulls = match spec.field {
        SortField::Due | SortField::Start | SortField::Rank | SortField::Id => " NULLS LAST",
        _ => "",
    };
    let mut r = String::new();
    push_str(&mut r, col);
    push_str(&mut r, " ");
    push_str(&mut r, dir);
    push_str(&mut r, nulls);
    r
}

/// The WHERE conditions of the plain filters.
pub open spec fn filter_conditions(f: TaskFilterV) -> Seq<Seq<char>> {
    (if f.done is Some { seq!["t.is_done = ?"@] } else { Seq::empty() })
        + (if f.folder is Some { seq!["tf.file_path LIKE ? || '%'"@] } else { Seq::empty() })
        + (if f.watch_root is Some { seq!["tf.watch_root = ?"@] } else { Seq::empty() })
}

/// The parameters of the plain filters, one per condition.
pub open spec fn filter_params(f: TaskFilterV) -> Seq<Seq<char>> {
    (match f.done {
        Some(d) => seq![if d { "1"@ } else { "0"@ }],
        None => Seq::empty(),
    }) + (match f.folder {
        Some(p) => seq![p],
        None => Seq::empty(),
    }) + (match f.watch_root {
        Some(p) => seq![p],
        None => Seq::empty(),
    })
}

/// Builds the WHERE conditions and parameters of the plain filters.
pub fn build_filter_conditions(filter: &TaskFilter) -> (r: (Vec<String>, Vec<String>))
    ensures
        strs(r.0@) == filter_conditions(filter@),
        strs(r.1@) == filter_params(filter@),
{
    let mut conditions: Vec<String> = Vec::new();
    let mut params: Vec<String> = Vec::new();
    let ghost f = filter@;
    if let Some(done) = filter.done {
        conditions.push("t.is_done = ?".to_string());
        params.push(if done { "1".to_string() } else { "0".to_string() });
    }
    let ghost c1 = strs(conditions@);
    let ghost p1 = strs(params@);
    assert(c1 =~= (if f.done is Some { seq!["t.is_done = ?"@] } else { Seq::<Seq<char>>::empty() }));
    assert(p1 =~= (match f.done {
        Some(d) => seq![if d { "1"@ } else { "0"@ }],
        None => Seq::<Seq<char>>::empty(),
    }));
    if let Some(folder) = &filter.folder {
        conditions.push("tf.file_path LIKE ? || '%'".to_string());
        params.push(copy_string(folder));
    }
    let ghost c2 = strs(conditions@);
    let ghost p2 = strs(params@);
    assert(c2 =~= c1 + (if f.folder is Some { seq!["tf.file_path LIKE ? || '%'"@] } else {
        Seq::<Seq<char>>::empty()
    }));
    assert(p2 =~= p1 + (match f.folder {
        Some(p) => seq![p],
        None => Seq::<Seq<char>>::empty(),
    }));
    if let Some(root) = &filter.watch_root {
        conditions.push("tf.watch_root = ?".to_string());
        params.push(copy_string(root));
    }
    assert(strs(conditions@) =~= c2 + (if f.watch_root is Some { seq!["tf.watch_root = ?"@] } else {
        Seq::<Seq<char>>::empty()
    }));
    assert(strs(params@) =~= p2 + (match f.watch_root {
        Some(p) => seq![p],
        None => Seq::<Seq<char>>::empty(),
    }));
    (conditions, params)
}

// ---------------------------------------------------------------------------
// The task query
// ---------------------------------------------------------------------------

/// The columns and joins of every task query.
pub const SELECT_TASKS: &'static str = "SELECT t.id, t.title, t.is_done, t.position, t.milestone, \
             t.due, t.start, t.rank, t.task_id, tf.file_path, tf.title, tf.watch_root
             FROM tasks t
             JOIN task_files tf ON t.task_file_id = tf.id";

/// The condition that drops a task row of a file when a file that it
/// imports owns a task with the same task ID (imported duplicates).
pub const NOT_IMPORTED: &'static str = "NOT EXISTS (\
             SELECT 1 FROM tasks t2 \
             JOIN task_files tf2 ON t2.task_file_id = tf2.id \
             JOIN file_references fr ON fr.source_file_id = t.task_file_id \
                 AND fr.target_path = tf2.file_path \
             WHERE t2.task_id IS NOT NULL \
                 AND t2.task_id = t.task_id \
                 AND t2.task_file_id != t.task_file_id\
            )";

/// The lookup of a task by a `LIKE` pattern on its ID.
pub const FIND_TASK_LIKE: &'static str = "SELECT t.task_id, t.title, t.is_done, tf.file_path, tf.eval_hash
                 FROM tasks t
                 JOIN task_files tf ON t.task_file_id = tf.id
                 WHERE t.task_id LIKE ?1";

/// The lookup of a task by its ID.
pub const FIND_TASK_EXACT: &'static str = "SELECT t.task_id, t.title, t.is_done, tf.file_path, tf.eval_hash
                 FROM tasks t
                 JOIN task_files tf ON t.task_file_id = tf.id
                 WHERE t.task_id = ?1";

/// The columns and joins of every task query.
pub open spec fn select_tasks_sql() -> Seq<char> {
    SELECT_TASKS@
}

/// The join needed by full-text search.
pub open spec fn fts_join_sql() -> Seq<char> {
    " JOIN tasks_fts fts ON fts.rowid = t.id"@
}

/// The exclusion of imported duplicates.
pub open spec fn not_imported_sql() -> Seq<char> {
    NOT_IMPORTED@
}

/// The `ORDER BY` list of a filter.
pub open spec fn order_sql(sort: Seq<SortSpec>) -> Seq<char> {
    if sort.len() == 0 {
        "tf.file_path, t.position"@
    } else {
        join(sort.map_values(|s: SortSpec| sort_sql(s)), ", "@)
    }
}

/// The `LIMIT` clause of a filter, if any.
pub open spec fn limit_sql(limit: Option<usize>) -> Seq<char> {
    match limit {
        Some(n) => " LIMIT "@ + dec_nat(n as nat),
        None => Seq::empty(),
    }
}

/// All WHERE conditions of a query: the plain filters, the exclusion of
/// imported duplicates, and the expression's condition.
pub open spec fn query_conditions(f: TaskFilterV, frag: Option<FragV>) -> Seq<Seq<char>> {
    filter_conditions(f) + seq![not_imported_sql()] + match frag {
        Some(x) => seq![x.cond],
        None => Seq::empty(),
    }
}

/// The SQL text of the task query for a filter and the translation of its
/// expression.
pub open spec fn query_sql(f: TaskFilterV, frag: Option<FragV>) -> Seq<char> {
    let fts = match frag {
        Some(x) => x.fts,
        None => false,
    };
    select_tasks_sql() + (if fts { fts_join_sql() } else { Seq::empty() }) + " WHERE "@ + join(
        query_conditions(f, frag),
        " AND "@,
    ) + " ORDER BY "@ + order_sql(f.sort) + limit_sql(f.limit)
}

/// The parameters of the task query, in placeholder order.
pub open spec fn query_params(f: TaskFilterV, frag: Option<FragV>) -> Seq<Seq<char>> {
    filter_params(f) + match frag {
        Some(x) => x.params,
        None => Seq::empty(),
    }
}

/// Builds the task query for a filter, given the translation of its
/// expression (if it has one).
pub fn task_query_sql(filter: &TaskFilter, frag: Option<&SqlFragment>) -> (r: (String, Vec<String>))
    ensures
        r.0@ == query_sql(
            filter@,
            match frag {
                Some(x) => Some(x@),
                None => None,
            },
        ),
        strs(r.1@) == query_params(
            filter@,
            match frag {
                Some(x) => Some(x@),
                None => None,
            },
        ),
{
    let ghost fv = match frag {
        Some(x) => Some(x@),
        None => None,
    };
    let mut sql = String::new();
    push_str(&mut sql, SELECT_TASKS);
    let needs_fts = match frag {
        Some(x) => x.needs_fts_join,
        None => false,
    };
    if needs_fts {
        push_str(&mut sql, " JOIN tasks_fts fts ON fts.rowid = t.id");
    }
    let (mut conditions, mut params) = build_filter_conditions(filter);
    conditions.push(NOT_IMPORTED.to_string());
    match frag {
        Some(x) => {
            conditions.push(copy_string(&x.condition));
            extend_strings(&mut params, &x.params);
        },
        None => {},
    }
    assert(strs(conditions@) =~= query_conditions(filter@, fv));
    assert(strs(params@) =~= query_params(filter@, fv));
    push_str(&mut sql, " WHERE ");
    let joined = join_strings(&conditions, " AND ");
    push_str(&mut sql, joined.as_str());
    push_str(&mut sql, " ORDER BY ");
    if filter.sort.len() == 0 {
        push_str(&mut sql, "tf.file_path, t.position");
    } else {
        let mut clauses: Vec<String> = Vec::new();
        let mut i: usize = 0;
        while i < filter.sort.len()
            invariant
                i <= filter.sort.len(),
                clauses.len() == i,
                strs(clauses@) == filter.sort@.take(i as int).map_values(|s: SortSpec| sort_sql(s)),
            decreases filter.sort.len() - i,
        {
            let c = sort_spec_to_sql(filter.sort[i]);
            let ghost before = clauses@;
            clauses.push(c);
            proof {
                let want = filter.sort@.take(i + 1).map_values(|s: SortSpec| sort_sql(s));
                assert(clauses@ == before.push(c));
                assert forall|k: int| 0 <= k < i + 1 implies strs(clauses@)[k] == want[k] by {
                    assert(strs(clauses@)[k] == clauses@[k]@);
                    if k < i {
                        assert(clauses@[k] == before[k]);
                        assert(strs(before)[k] == before[k]@);
                    }
                }
                assert(strs(clauses@) =~= want);
            }
            i = i + 1;
        }
        assert(filter.sort@.take(filter.sort.len() as int) =~= filter.sort@);
        let joined_order = join_strings(&clauses, ", ");
        push_str(&mut sql, joined_order.as_str());
    }
    if let Some(limit) = filter.limit {
        push_str(&mut sql, " LIMIT ");
        push_usize(&mut sql, limit);
    }
    (sql, params)
}

/// The plain form of a query result.
pub open spec fn query_view(r: &Result<(String, Vec<String>), StoreError>) -> Result<
    (Seq<char>, Seq<Seq<char>>),
    StoreErrV,
> {
    match r {
        Ok((s, p)) => Ok((s@, strs(p@))),
        Err(e) => Err(e@),
    }
}

/// Builds the task query of a filter: its SQL text and its parameters in
/// placeholder order.  A filter expression that cannot be translated gives
/// `StoreError::FilterExpr`.
pub fn build_task_query(filter: &TaskFilter) -> (r: Result<(String, Vec<String>), StoreError>)
    ensures
        filter@.expr is None ==> query_view(&r) == Ok::<_, StoreErrV>(
            (query_sql(filter@, None), query_params(filter@, None)),
        ),
        filter@.expr matches Some(e) ==> query_view(&r) == match expr_translation(e) {
            Ok(frag) => Ok::<_, StoreErrV>((query_sql(filter@, Some(frag)), query_params(filter@, Some(frag)))),
            Err(x) => Err(StoreErrV::FilterExpr(x)),
        },
{
    match &filter.expr {
        None => Ok(task_query_sql(filter, None)),
        Some(e) => {
            let tr = translate_expr(e.as_str());
            match tr {
                Ok(frag) => Ok(task_query_sql(filter, Some(&frag))),
                Err(x) => Err(StoreError::FilterExpr(x)),
            }
        },
    }
}

// ---------------------------------------------------------------------------
// Query rows and views
// ---------------------------------------------------------------------------

/// One row of the task query: the task row's ID, then its columns.
#[derive(Debug, Clone, PartialEq)]
pub struct TaskRow {
    pub row_id: i64,
    pub title: String,
    pub is_done: bool,
    pub position: i32,
    pub milestone: Option<String>,
    pub due: Option<String>,
    pub start: Option<String>,
    pub rank: Option<i64>,
    pub task_id: Option<String>,
    pub file_path: String,
    pub file_title: Option<String>,
    pub watch_root: Option<String>,
}

/// A task with its file context and properties, returned by queries.
#[derive(Debug, Clone, PartialEq)]
pub struct TaskView {
    pub title: String,
    pub is_done: bool,
    pub position: i32,
    pub file_path: String,
    pub file_title: Option<String>,
    pub due: Option<String>,
    pub start: Option<String>,
    pub rank: Option<i64>,
    /// User-assigned task ID (UUIDv7).
    pub task_id: Option<String>,
    pub tags: Vec<String>,
    /// Heading path (e.g. "Header 1 > Subheader 1.1").
    pub milestone: Option<String>,
    /// Canonical watched folder path.
    pub watch_root: Option<String>,
}

/// The plain-value form of a [`TaskView`].
pub struct TaskViewV {
    pub title: Seq<char>,
    pub is_done: bool,
    pub position: i32,
    pub file_path: Seq<char>,
    pub file_title: Option<Seq<char>>,
    pub due: Option<Seq<char>>,
    pub start: Option<Seq<char>>,
    pub rank: Option<i64>,
    pub task_id: Option<Seq<char>>,
    pub tags: Seq<Seq<char>>,
    pub milestone: Option<Seq<char>>,
    pub watch_root: Option<Seq<char>>,
}

impl View for TaskView {
    type V = TaskViewV;

    open spec fn view(&self) -> TaskViewV {
        TaskViewV {
            title: self.title@,
            is_done: self.is_done,
            position: self.position,
            file_path: self.file_path@,
            file_title: opt_view(&self.file_title),
            due: opt_view(&self.due),
            start: opt_view(&self.start),
            rank: self.rank,
            task_id: opt_view(&self.task_id),
            tags: strs(self.tags@),
            milestone: opt_view(&self.milestone),
            watch_root: opt_view(&self.watch_root),
        }
    }
}

/// The view of a task row with the given tags.
pub open spec fn row_view(row: &TaskRow, tags: Seq<Seq<char>>) -> TaskViewV {
    TaskViewV {
        title: row.title@,
        is_done: row.is_done,
        position: row.position,
        file_path: row.file_path@,
        file_title: opt_view(&row.file_title),
        due: opt_view(&row.due),
        start: opt_view(&row.start),
        rank: row.rank,
        task_id: opt_view(&row.task_id),
        tags: tags,
        milestone: opt_view(&row.milestone),
        watch_root: opt_view(&row.watch_root),
    }
}

/// A tag of a task row: `(row id, tag)`.
#[derive(Debug, Clone, PartialEq)]
pub struct TagRow {
    pub row_id: i64,
    pub tag: String,
}

/// The tags of row `id`, in the order of the tag rows.
pub open spec fn tags_of(tags: Seq<TagRow>, id: i64) -> Seq<Seq<char>>
    decreases tags.len(),
{
    if tags.len() == 0 {
        Seq::empty()
    } else {
        tags_of(tags.drop_last(), id) + if tags.last().row_id == id {
            seq![tags.last().tag@]
        } else {
            Seq::empty()
        }
    }
}

/// Row `i` is the first row with its row ID.
pub open spec fn first_with_id(rows: Seq<TaskRow>, i: int) -> bool {
    forall|j: int| 0 <= j < i ==> rows[j].row_id != rows[i].row_id
}

/// The tags that the view of row `i` gets: all tags of its row ID for
/// the first row with that ID, none for a repeated row.
pub open spec fn view_tags(rows: Seq<TaskRow>, tags: Seq<TagRow>, i: int) -> Seq<Seq<char>> {
    if first_with_id(rows, i) {
        tags_of(tags, rows[i].row_id)
    } else {
        Seq::empty()
    }
}

fn collect_tags(tags: &Vec<TagRow>, id: i64) -> (r: Vec<String>)
    ensures
        strs(r@) == tags_of(tags@, id),
{
    let mut r: Vec<String> = Vec::new();
    let mut i: usize = 0;
    while i < tags.len()
        invariant
            i <= tags.len(),
            strs(r@) == tags_of(tags@.take(i as int), id),
        decreases tags.len() - i,
    {
        assert(tags@.take(i + 1).drop_last() =~= tags@.take(i as int));
        if tags[i].row_id == id {
            let c = copy_string(&tags[i].tag);
            let ghost before = r@;
            r.push(c);
            assert(r@ == before.push(c));
            assert(strs(r@) =~= strs(before).push(c@));
        }
        i = i + 1;
    }
    assert(tags@.take(tags.len() as int) =~= tags@);
    r
}

fn seen_before(rows: &Vec<TaskRow>, i: usize) -> (r: bool)
    requires
        i < rows.len(),
    ensures
        r == !first_with_id(rows@, i as int),
{
    let mut j: usize = 0;
    while j < i
        invariant
            j <= i < rows.len(),
            forall|k: int| 0 <= k < j ==> rows@[k].row_id != rows@[i as int].row_id,
        decreases i - j,
    {
        if rows[j].row_id == rows[i].row_id {
            return true;
        }
        j = j + 1;
    }
    false
}

/// Assembles task views from the rows of the task query and the tag rows
/// of those tasks: each view keeps its row's columns and gets its row's
/// tags, in tag-row order; a row ID that comes again gets no tags.
pub fn assemble_task_views(rows: &Vec<TaskRow>, tags: &Vec<TagRow>) -> (r: Vec<TaskView>)
    ensures
        r.len() == rows.len(),
        forall|i: int| 0 <= i < rows.len() ==> #[trigger] r@[i]@ == row_view(
            &rows@[i],
            view_tags(rows@, tags@, i),
        ),
{
    let mut out: Vec<TaskView> = Vec::new();
    let mut i: usize = 0;
    while i < rows.len()
        invariant
            i <= rows.len(),
            out.len() == i,
            forall|k: int| 0 <= k < i ==> #[trigger] out@[k]@ == row_view(
                &rows@[k],
                view_tags(rows@, tags@, k),
            ),
        decreases rows.len() - i,
    {
        let row = &rows[i];
        let row_tags = if seen_before(rows, i) {
            Vec::new()
        } else {
            collect_tags(tags, row.row_id)
        };
        assert(strs(row_tags@) == view_tags(rows@, tags@, i as int));
        let v = TaskView {
            title: copy_string(&row.title),
            is_done: row.is_done,
            position: row.position,
            file_path: copy_string(&row.file_path),
            file_title: copy_opt(&row.file_title),
            due: copy_opt(&row.due),
            start: copy_opt(&row.start),
            rank: row.rank,
            task_id: copy_opt(&row.task_id),
            tags: row_tags,
            milestone: copy_opt(&row.milestone),
            watch_root: copy_opt(&row.watch_root),
        };
        let ghost before = out@;
        out.push(v);
        assert(out@ == before.push(v));
        i = i + 1;
    }
    out
}

// ---------------------------------------------------------------------------
// Files, statistics, dependencies
// ---------------------------------------------------------------------------

/// Summary of an indexed file.
#[derive(Debug, Clone, PartialEq)]
pub struct FileView {
    pub file_path: String,
    pub watch_root: Option<String>,
    pub title: Option<String>,
    pub task_count: i64,
    pub updated_at: String,
}

/// Aggregate index statistics.
#[derive(Debug, Clone, PartialEq)]
pub struct IndexStats {
    pub file_count: i64,
    pub task_count: i64,
    pub done_count: i64,
    pub pending_count: i64,
    pub last_updated: Option<String>,
}

/// The statistics of the index from its counts: a missing count of done
/// tasks (no tasks at all) is zero, and the pending tasks are the tasks
/// that are not done.
pub fn stats_from_counts(
    file_count: i64,
    task_count: i64,
    done_count: Option<i64>,
    last_updated: Option<String>,
) -> (r: IndexStats)
    requires
        i64::MIN <= task_count - match done_count {
            Some(d) => d as int,
            None => 0,
        } <= i64::MAX,
    ensures
        r.file_count == file_count,
        r.task_count == task_count,
        r.done_count == match done_count {
            Some(d) => d,
            None => 0,
        },
        r.pending_count == r.task_count - r.done_count,
        opt_view(&r.last_updated) == opt_view(&last_updated),
{
    let done = match done_count {
        Some(d) => d,
        None => 0,
    };
    IndexStats {
        file_count,
        task_count,
        done_count: done,
        pending_count: task_count - done,
        last_updated,
    }
}

/// A cross-file reference: one file importing another.
#[derive(Debug, Clone, PartialEq)]
pub struct FileReference {
    pub id: Option<i64>,
    pub source_file_id: i64,
    pub target_path: String,
}

/// A file that failed to index, with the error message.
#[derive(Debug, Clone, PartialEq)]
pub struct FileError {
    pub file_path: String,
    pub watch_root: Option<String>,
    pub error: String,
    pub updated_at: String,
}

/// A file with its incoming and outgoing dependencies.
#[derive(Debug, Clone, PartialEq)]
pub struct FileDependencies {
    pub file_path: String,
    pub file_title: Option<String>,
    /// Files that this file imports.
    pub imports: Vec<String>,
    /// Files that import this file.
    pub imported_by: Vec<String>,
}

// ---------------------------------------------------------------------------
// Finding a task by ID
// ---------------------------------------------------------------------------

/// A task with its file context, as found by ID.
#[derive(Debug, Clone, PartialEq)]
pub struct TaskWithFile {
    pub task_id: String,
    pub task_title: String,
    pub is_done: bool,
    pub file_path: String,
    pub file_hash: String,
}

/// How a task is looked up: by a `LIKE` pattern on the task ID, or by the
/// task ID itself.
#[derive(Debug, Clone, PartialEq)]
pub enum TaskLookup {
    /// `task_id LIKE <pattern>`.
    Like(String),
    /// `task_id = <id>`.
    Exact(String),
}

/// The plain-value form of a [`TaskLookup`].
pub enum TaskLookupV {
    Like(Seq<char>),
    Exact(Seq<char>),
}

impl View for TaskLookup {
    type V = TaskLookupV;

    open spec fn view(&self) -> TaskLookupV {
        match self {
            TaskLookup::Like(p) => TaskLookupV::Like(p@),
            TaskLookup::Exact(p) => TaskLookupV::Exact(p@),
        }
    }
}

/// The lookup of a task ID or mask, given how it resolves as a task ID: a
/// mask `*<suffix>` matches the IDs that end with the suffix; anything else
/// is looked up as its canonical form, or as it is when it does not
/// resolve.
pub open spec fn lookup_spec(id: Seq<char>, resolved: Result<Seq<char>, Seq<char>>) -> TaskLookupV {
    if id.len() > 0 && id[0] == '*' {
        TaskLookupV::Like(seq!['%'] + id.drop_first())
    } else {
        match resolved {
            Ok(c) => TaskLookupV::Exact(c),
            Err(_) => TaskLookupV::Exact(id),
        }
    }
}

/// Chooses how to look up a task ID or mask.
pub fn task_lookup(id_or_mask: &str) -> (r: TaskLookup)
    ensures
        r@ == lookup_spec(id_or_mask@, resolve_task_id_spec(id_or_mask@, uuid_parsed(id_or_mask@))),
{
    let v = crate::text::chars_of(id_or_mask);
    if v.len() > 0 && v[0] == '*' {
        let mut p = String::new();
        crate::text::push_char(&mut p, '%');
        let rest = crate::text::slice_vec(&v, 1, v.len());
        crate::text::push_chars(&mut p, &rest);
        assert(p@ =~= seq!['%'] + id_or_mask@.drop_first());
        TaskLookup::Like(p)
    } else {
        match parse_task_id(id_or_mask) {
            Ok(c) => TaskLookup::Exact(c),
            Err(_) => TaskLookup::Exact(id_or_mask.to_string()),
        }
    }
}

/// The SQL text of a task lookup; its one parameter is the lookup's text.
pub open spec fn lookup_sql(l: TaskLookupV) -> Seq<char> {
    match l {
        TaskLookupV::Like(_) => FIND_TASK_LIKE@,
        TaskLookupV::Exact(_) => FIND_TASK_EXACT@,
    }
}

impl TaskLookup {
    /// The SQL text of this lookup.
    pub fn sql(&self) -> (r: &'static str)
        ensures
            r@ == lookup_sql(self@),
    {
        match self {
            TaskLookup::Like(_) => FIND_TASK_LIKE,
            TaskLookup::Exact(_) => FIND_TASK_EXACT,
        }
    }

    /// The parameter of this lookup.
    pub fn param(&self) -> (r: &str)
        ensures
            r@ == match self@ {
                TaskLookupV::Like(p) => p,
                TaskLookupV::Exact(p) => p,
            },
    {
        match self {
            TaskLookup::Like(p) => p.as_str(),
            TaskLookup::Exact(p) => p.as_str(),
        }
    }
}

/// The message when no task matches.
pub open spec fn not_found_message(id: Seq<char>) -> Seq<char> {
    "task not found: "@ + id
}

/// The message when a mask matches several tasks.
pub open spec fn ambiguous_message(id: Seq<char>, n: nat) -> Seq<char> {
    "ambiguous task ID pattern '"@ + id + "': matched "@ + dec_nat(n) + " tasks"@
}

/// Picks the one task that a lookup found: none is an error (not found),
/// and more than one is an error (ambiguous).
pub fn single_task(results: Vec<TaskWithFile>, id_or_mask: &str) -> (r: Result<TaskWithFile, StoreError>)
    ensures
        results.len() == 1 ==> (r matches Ok(t) && t == results@[0]),
        results.len() == 0 ==> (r matches Err(e) && e@ == StoreErrV::Path(
            not_found_message(id_or_mask@),
        )),
        results.len() > 1 ==> (r matches Err(e) && e@ == StoreErrV::Path(
            ambiguous_message(id_or_mask@, results.len() as nat),
        )),
{
    let n = results.len();
    if n == 1 {
        let mut results = results;
        let t = results.remove(0);
        Ok(t)
    } else if n == 0 {
        let mut m = String::new();
        push_str(&mut m, "task not found: ");
        push_str(&mut m, id_or_mask);
        Err(StoreError::Path(m))
    } else {
        let mut m = String::new();
        push_str(&mut m, "ambiguous task ID pattern '");
        push_str(&mut m, id_or_mask);
        push_str(&mut m, "': matched ");
        push_usize(&mut m, n);
        push_str(&mut m, " tasks");
        Err(StoreError::Path(m))
    }
}

// ---------------------------------------------------------------------------
// Errors
// ---------------------------------------------------------------------------

/// Errors of the store.
#[derive(Debug, Clone, PartialEq)]
pub enum StoreError {
    /// A database error, by its message.
    Db(String),
    Migration(String),
    Path(String),
    Io(String),
    /// An evaluation error, by its message.
    Eval(String),
    FilterExpr(FilterExprError),
}

/// The plain-value form of a [`StoreError`].
pub enum StoreErrV {
    Db(Seq<char>),
    Migration(Seq<char>),
    Path(Seq<char>),
    Io(Seq<char>),
    Eval(Seq<char>),
    FilterExpr(FilterErrV),
}

impl View for StoreError {
    type V = StoreErrV;

    open spec fn view(&self) -> StoreErrV {
        match self {
            StoreError::Db(s) => StoreErrV::Db(s@),
            StoreError::Migration(s) => StoreErrV::Migration(s@),
            StoreError::Path(s) => StoreErrV::Path(s@),
            StoreError::Io(s) => StoreErrV::Io(s@),
            StoreError::Eval(s) => StoreErrV::Eval(s@),
            StoreError::FilterExpr(e) => StoreErrV::FilterExpr(e@),
        }
    }
}

/// The message of a store error.
pub open spec fn store_error_message(e: StoreErrV) -> Seq<char> {
    match e {
        StoreErrV::Db(s) => "database error: "@ + s,
        StoreErrV::Migration(s) => "migration failed: "@ + s,
        StoreErrV::Path(s) => "path error: "@ + s,
        StoreErrV::Io(s) => "io error: "@ + s,
        StoreErrV::Eval(s) => "eval error: "@ + s,
        StoreErrV::FilterExpr(x) => "filter expression error: "@ + crate::filter_expr::error_message(x),
    }
}

impl StoreError {
    /// The error's message, as its `Display` form would print it.
    pub fn message(&self) -> (r: String)
        ensures
            r@ == store_error_message(self@),
    {
        let mut r = String::new();
        match self {
            StoreError::Db(s) => {
                push_str(&mut r, "database error: ");
                push_str(&mut r, s.as_str());
            },
            StoreError::Migration(s) => {
                push_str(&mut r, "migration failed: ");
                push_str(&mut r, s.as_str());
            },
            StoreError::Path(s) => {
                push_str(&mut r, "path error: ");
                push_str(&mut r, s.as_str());
            },
            StoreError::Io(s) => {
                push_str(&mut r, "io error: ");
                push_str(&mut r, s.as_str());
            },
            StoreError::Eval(s) => {
                push_str(&mut r, "eval error: ");
                push_str(&mut r, s.as_str());
            },
            StoreError::FilterExpr(x) => {
                push_str(&mut r, "filter expression error: ");
                let m = x.message();
                push_str(&mut r, m.as_str());
            },
        }
        r
    }
}


/// The `done` filter binds `1` (done tasks) or `0` (pending tasks) to the
/// condition on `t.is_done`, which comes first; without it no condition
/// reads `t.is_done`.  Every condition has its parameter at the same place.
pub proof fn law_done_filter_param(f: TaskFilterV)
    ensures
        filter_conditions(f).len() == filter_params(f).len(),
        f.done matches Some(d) ==> filter_conditions(f)[0] == "t.is_done = ?"@ && filter_params(f)[0] == (if d {
            "1"@
        } else {
            "0"@
        }),
        f.done is None ==> forall|i: int|
            0 <= i < filter_conditions(f).len() ==> #[trigger] filter_conditions(f)[i] != "t.is_done = ?"@,
        f.folder matches Some(p) ==> exists|i: int|
            0 <= i < filter_conditions(f).len() && #[trigger] filter_conditions(f)[i] == "tf.file_path LIKE ? || '%'"@
                && filter_params(f)[i] == p,
{
    reveal_strlit("t.is_done = ?");
    reveal_strlit("tf.file_path LIKE ? || '%'");
    reveal_strlit("tf.watch_root = ?");
    let c = filter_conditions(f);
    let t = "t.is_done = ?"@;
    assert(t != "tf.file_path LIKE ? || '%'"@ && t != "tf.watch_root = ?"@) by {
        assert(t[1] == '.');
    }
    if f.done is None {
        assert forall|i: int| 0 <= i < c.len() implies #[trigger] c[i] != t by {
            assert(c[i] == "tf.file_path LIKE ? || '%'"@ || c[i] == "tf.watch_root = ?"@);
        }
    }
    if f.folder is Some {
        let i: int = if f.done is Some { 1 } else { 0 };
        assert(c[i] == "tf.file_path LIKE ? || '%'"@);
    }
}

}
