//! The single-project index: files keyed by their path relative to the
//! project root, tasks, and their properties (`due`, `tag`, `id`) as
//! separate rows.  This module holds its records, the task query with
//! numbered placeholders, and the folding of property rows into task views.

use vstd::prelude::*;
use crate::text::{
    copy_opt, copy_string, dec_nat, join, join_strings, opt_view, push_str, push_usize, strs,
};

verus! {

broadcast use vstd::string::group_string_axioms;

/// The kinds of task properties.
#[derive(Debug, Clone, Copy, PartialEq, Eq, Structural)]
pub enum PropertyKind {
    Due,
    Tag,
    Id,
}

/// The stored name of a property kind.
pub open spec fn kind_name(k: PropertyKind) -> Seq<char> {
    match k {
        PropertyKind::Due => "due"@,
        PropertyKind::Tag => "tag"@,
        PropertyKind::Id => "id"@,
    }
}

impl PropertyKind {
    /// The stored name of this kind.
    pub fn as_str(&self) -> (r: &'static str)
        ensures
            r@ == kind_name(*self),
    {
        match self {
            PropertyKind::Due => "due",
            PropertyKind::Tag => "tag",
            PropertyKind::Id => "id",
        }
    }

    /// The kind with the stored name `s`, if any.
    pub fn from_str(s: &str) -> (r: Option<PropertyKind>)
        ensures
            r matches Some(k) ==> kind_name(k) == s@,
            r is None ==> forall|k: PropertyKind| kind_name(k) != s@,
    {
        proof {
            reveal_strlit("due");
            reveal_strlit("tag");
            reveal_strlit("id");
        }
        if crate::text::str_eq(s, "due") {
            Some(PropertyKind::Due)
        } else if crate::text::str_eq(s, "tag") {
            Some(PropertyKind::Tag)
        } else if crate::text::str_eq(s, "id") {
            Some(PropertyKind::Id)
        } else {
            proof {
                assert forall|k: PropertyKind| kind_name(k) != s@ by {
                    match k {
                        PropertyKind::Due => {},
                        PropertyKind::Tag => {},
                        PropertyKind::Id => {},
                    }
                }
            }
            None
        }
    }
}

/// An indexed `.typ` file.
#[derive(Debug, Clone, PartialEq)]
pub struct TaskFile {
    pub id: Option<i64>,
    pub relative_path: String,
    pub title: Option<String>,
    pub eval_hash: String,
    pub updated_at: String,
}

/// A task of an indexed file.
#[derive(Debug, Clone, PartialEq)]
pub struct TaskRecord {
    pub id: Option<i64>,
    pub task_file_id: i64,
    pub title: String,
    pub is_done: bool,
    pub position: i32,
}

/// A property of a task.
#[derive(Debug, Clone, PartialEq)]
pub struct TaskProperty {
    pub id: Option<i64>,
    pub task_id: i64,
    pub kind: PropertyKind,
    pub key: String,
    pub value: String,
}

/// A `#let` binding of an indexed file.
#[derive(Debug, Clone, PartialEq)]
pub struct FileBinding {
    pub id: Option<i64>,
    pub task_file_id: i64,
    pub name: String,
    pub value_type: String,
    pub value_json: String,
}

// ---------------------------------------------------------------------------
// The task query
// ---------------------------------------------------------------------------

/// Filters of a task query; all given ones must hold.
#[derive(Debug, Default, Clone, PartialEq)]
pub struct TaskFilter {
    pub done: Option<bool>,
    /// Tasks with this tag.
    pub tag: Option<String>,
    /// Tasks due on or before this date (`YYYY-MM-DD`, compared as text).
    pub due_before: Option<String>,
    /// Tasks of this file (its relative path).
    pub file_path: Option<String>,
    pub limit: Option<usize>,
}

/// A query parameter.
#[derive(Debug, Clone, PartialEq)]
pub enum BindValue {
    Int(i32),
    Text(String),
}

/// The plain form of a query parameter.
pub enum BindV {
    Int(int),
    Text(Seq<char>),
}

/// The plain form of a query parameter.
pub open spec fn bind_view(b: BindValue) -> BindV {
    match b {
        BindValue::Int(i) => BindV::Int(i as int),
        BindValue::Text(t) => BindV::Text(t@),
    }
}

/// The columns and joins of the task query.
pub const SELECT_INDEXED_TASKS: &'static str =
    "SELECT t.id, t.title, t.is_done, t.position, tf.relative_path, tf.title
             FROM tasks t
             JOIN task_files tf ON t.task_file_id = tf.id";

/// The given filters of a query, in order, as the text before and after
/// the placeholder's number, and the parameter.
pub open spec fn active_filters(f: &TaskFilter) -> Seq<(Seq<char>, Seq<char>, BindV)> {
    (match f.done {
        Some(d) => seq![("t.is_done = ?"@, ""@, BindV::Int(if d { 1 } else { 0 }))],
        None => Seq::empty(),
    }) + (match &f.tag {
        Some(t) => seq![(
            "EXISTS (SELECT 1 FROM task_properties tp WHERE tp.task_id = t.id AND tp.kind = 'tag' AND tp.value = ?"@,
            ")"@,
            BindV::Text(t@),
        )],
        None => Seq::empty(),
    }) + (match &f.due_before {
        Some(d) => seq![(
            "EXISTS (SELECT 1 FROM task_properties tp WHERE tp.task_id = t.id AND tp.kind = 'due' AND tp.value <= ?"@,
            ")"@,
            BindV::Text(d@),
        )],
        None => Seq::empty(),
    }) + (match &f.file_path {
        Some(p) => seq![("tf.relative_path = ?"@, ""@, BindV::Text(p@))],
        None => Seq::empty(),
    })
}

/// The conditions of a query: the `i`-th given filter binds placeholder
/// `?<i + 1>`.
pub open spec fn index_conditions(f: &TaskFilter) -> Seq<Seq<char>> {
    let a = active_filters(f);
    Seq::new(a.len(), |i: int| a[i].0 + dec_nat((i + 1) as nat) + a[i].1)
}

/// The SQL text of the task query.
pub open spec fn index_query_sql(f: &TaskFilter) -> Seq<char> {
    let c = index_conditions(f);
    SELECT_INDEXED_TASKS@ + (if c.len() > 0 {
        " WHERE "@ + join(c, " AND "@)
    } else {
        Seq::empty()
    }) + " ORDER BY tf.relative_path, t.position"@ + match f.limit {
        Some(n) => " LIMIT "@ + dec_nat(n as nat),
        None => Seq::empty(),
    }
}

/// The parameters of the task query, in placeholder order.
pub open spec fn index_query_params(f: &TaskFilter) -> Seq<BindV> {
    active_filters(f).map_values(|a: (Seq<char>, Seq<char>, BindV)| a.2)
}

fn push_condition(
    conds: &mut Vec<String>,
    params: &mut Vec<BindValue>,
    before: &str,
    after: &str,
    value: BindValue,
)
    requires
        old(conds).len() == old(params).len(),
        old(conds).len() < usize::MAX,
    ensures
        final(conds)@.len() == old(conds)@.len() + 1,
        final(params)@.len() == old(params)@.len() + 1,
        final(conds)@.take(old(conds)@.len() as int) == old(conds)@,
        final(params)@.take(old(params)@.len() as int) == old(params)@,
        final(conds)@.last()@ == before@ + dec_nat((old(conds)@.len() + 1) as nat) + after@,
        bind_view(final(params)@.last()) == bind_view(value),
{
    let n = conds.len() + 1;
    let mut c = String::new();
    push_str(&mut c, before);
    push_usize(&mut c, n);
    push_str(&mut c, after);
    let ghost c0 = conds@;
    let ghost p0 = params@;
    conds.push(c);
    params.push(value);
    assert(conds@.take(c0.len() as int) =~= c0);
    assert(params@.take(p0.len() as int) =~= p0);
}

/// Builds the task query of a filter: conditions with numbered
/// placeholders `?1`, `?2`, … in the order done, tag, due date, file.
pub fn build_index_query(filter: &TaskFilter) -> (r: (String, Vec<BindValue>))
    ensures
        r.0@ == index_query_sql(filter),
        r.1@.map_values(|b: BindValue| bind_view(b)) == index_query_params(filter),
{
    let ghost a = active_filters(filter);
    let mut conds: Vec<String> = Vec::new();
    let mut params: Vec<BindValue> = Vec::new();
    let ghost mut k: int = 0;
    proof {
        reveal_strlit("t.is_done = ?");
        reveal_strlit("");
    }
    if let Some(done) = filter.done {
        push_condition(
            &mut conds,
            &mut params,
            "t.is_done = ?",
            "",
            BindValue::Int(if done { 1 } else { 0 }),
        );
    }
    let ghost n1 = conds.len() as int;
    assert(forall|i: int| 0 <= i < n1 ==> #[trigger] strs(conds@)[i] == a[i].0 + dec_nat((i + 1) as nat) + a[i].1);
    assert(forall|i: int| 0 <= i < n1 ==> #[trigger] bind_view(params@[i]) == a[i].2);
    if let Some(tag) = &filter.tag {
        let ghost c0 = conds@;
        let ghost p0 = params@;
        push_condition(
            &mut conds,
            &mut params,
            "EXISTS (SELECT 1 FROM task_properties tp WHERE tp.task_id = t.id AND tp.kind = 'tag' AND tp.value = ?",
            ")",
            BindValue::Text(copy_string(tag)),
        );
        assert(forall|i: int| 0 <= i < n1 ==> conds@[i] == #[trigger] c0[i]);
        assert(forall|i: int| 0 <= i < n1 ==> params@[i] == #[trigger] p0[i]);
    }
    let ghost n2 = conds.len() as int;
    assert(forall|i: int| 0 <= i < n2 ==> #[trigger] strs(conds@)[i] == a[i].0 + dec_nat((i + 1) as nat) + a[i].1);
    assert(forall|i: int| 0 <= i < n2 ==> #[trigger] bind_view(params@[i]) == a[i].2);
    if let Some(due) = &filter.due_before {
        let ghost c0 = conds@;
        let ghost p0 = params@;
        push_condition(
            &mut conds,
            &mut params,
            "EXISTS (SELECT 1 FROM task_properties tp WHERE tp.task_id = t.id AND tp.kind = 'due' AND tp.value <= ?",
            ")",
            BindValue::Text(copy_string(due)),
        );
        assert(forall|i: int| 0 <= i < n2 ==> conds@[i] == #[trigger] c0[i]);
        assert(forall|i: int| 0 <= i < n2 ==> params@[i] == #[trigger] p0[i]);
    }
    let ghost n3 = conds.len() as int;
    assert(forall|i: int| 0 <= i < n3 ==> #[trigger] strs(conds@)[i] == a[i].0 + dec_nat((i + 1) as nat) + a[i].1);
    assert(forall|i: int| 0 <= i < n3 ==> #[trigger] bind_view(params@[i]) == a[i].2);
    if let Some(path) = &filter.file_path {
        let ghost c0 = conds@;
        let ghost p0 = params@;
        push_condition(
            &mut conds,
            &mut params,
            "tf.relative_path = ?",
            "",
            BindValue::Text(copy_string(path)),
        );
        assert(forall|i: int| 0 <= i < n3 ==> conds@[i] == #[trigger] c0[i]);
        assert(forall|i: int| 0 <= i < n3 ==> params@[i] == #[trigger] p0[i]);
    }
    assert(conds.len() == a.len());
    assert(strs(conds@) =~= index_conditions(filter));
    assert(params@.map_values(|b: BindValue| bind_view(b)) =~= index_query_params(filter));
    let mut sql = String::new();
    push_str(&mut sql, SELECT_INDEXED_TASKS);
    if conds.len() > 0 {
        push_str(&mut sql, " WHERE ");
        let joined = join_strings(&conds, " AND ");
        push_str(&mut sql, joined.as_str());
    }
    push_str(&mut sql, " ORDER BY tf.relative_path, t.position");
    if let Some(limit) = filter.limit {
        push_str(&mut sql, " LIMIT ");
        push_usize(&mut sql, limit);
    }
    (sql, params)
}

// ---------------------------------------------------------------------------
// Query rows and views
// ---------------------------------------------------------------------------

/// A task with its file context, returned by queries.
#[derive(Debug, Clone, PartialEq)]
pub struct TaskView {
    pub title: String,
    pub is_done: bool,
    pub position: i32,
    pub file_path: String,
    pub file_title: Option<String>,
    pub due: Option<String>,
    pub tags: Vec<String>,
}

/// A property row of a task: `(kind, value)`.
#[derive(Debug, Clone, PartialEq)]
pub struct PropRow {
    pub kind: String,
    pub value: String,
}

/// The due date of a task's property rows: the last `due` value.
pub open spec fn rows_due(rows: Seq<PropRow>) -> Option<Seq<char>>
    decreases rows.len(),
{
    if rows.len() == 0 {
        None
    } else if rows.last().kind@ == "due"@ {
        Some(rows.last().value@)
    } else {
        rows_due(rows.drop_last())
    }
}

/// The tags of a task's property rows, in order.
pub open spec fn rows_tags(rows: Seq<PropRow>) -> Seq<Seq<char>>
    decreases rows.len(),
{
    if rows.len() == 0 {
        Seq::empty()
    } else {
        rows_tags(rows.drop_last()) + if rows.last().kind@ == "tag"@ {
            seq![rows.last().value@]
        } else {
            Seq::empty()
        }
    }
}

/// The view of a task row: its columns, its due date and tags from its
/// property rows (other kinds are ignored).
pub fn task_view_from_rows(
    title: &str,
    is_done: bool,
    position: i32,
    file_path: &str,
    file_title: &Option<String>,
    props: &Vec<PropRow>,
) -> (r: TaskView)
    ensures
        r.title@ == title@,
        r.is_done == is_done,
        r.position == position,
        r.file_path@ == file_path@,
        opt_view(&r.file_title) == opt_view(file_title),
        opt_view(&r.due) == rows_due(props@),
        strs(r.tags@) == rows_tags(props@),
{
    let mut due: Option<String> = None;
    let mut tags: Vec<String> = Vec::new();
    let mut i: usize = 0;
    while i < props.len()
        invariant
            i <= props.len(),
            opt_view(&due) == rows_due(props@.take(i as int)),
            strs(tags@) == rows_tags(props@.take(i as int)),
        decreases props.len() - i,
    {
        assert(props@.take(i + 1).drop_last() =~= props@.take(i as int));
        assert(props@.take(i + 1).last() == props@[i as int]);
        let p = &props[i];
        if crate::text::str_eq(p.kind.as_str(), "due") {
            due = Some(copy_string(&p.value));
            proof {
                assert(p.kind@ != "tag"@) by {
                    reveal_strlit("due");
                    reveal_strlit("tag");
                    assert(p.kind@[0] == 'd');
                }
            }
        } else if crate::text::str_eq(p.kind.as_str(), "tag") {
            let c = copy_string(&p.value);
            let ghost before = tags@;
            tags.push(c);
            assert(tags@ == before.push(c));
            assert(strs(tags@) =~= strs(before).push(c@));
        }
        i = i + 1;
    }
    assert(props@.take(props.len() as int) =~= props@);
    TaskView {
        title: title.to_string(),
        is_done,
        position,
        file_path: file_path.to_string(),
        file_title: copy_opt(file_title),
        due,
        tags,
    }
}

}
