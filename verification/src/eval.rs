//! Tasks as evaluation finds them in a `.typ` file, and what is decided
//! about them: which list items are tasks, what their metadata says, how
//! bindings are recorded, and how tasks are listed.
//!
//! Typst's own values are read by the caller into the plain types here:
//! a list item is its plain text and the `(key, value)` metadata pairs in
//! its body; a date is its calendar parts.

use vstd::prelude::*;
use crate::text::{
    chars_of, copy_opt, copy_string, copy_strings, dec_nat, has_prefix, opt_view, push_char,
    push_padded, push_str, slice_vec, starts_with, string_of, strs, trim_chars, trim_spec, zpad,
};

verus! {

broadcast use vstd::string::group_string_axioms;

// ---------------------------------------------------------------------------
// Dates
// ---------------------------------------------------------------------------

/// A date as Typst holds it: each calendar part is absent when the value
/// has none (a time of day only).
#[derive(Debug, Clone, Copy, PartialEq, Eq, Structural)]
pub struct Datetime {
    pub year: Option<i32>,
    pub month: Option<u8>,
    pub day: Option<u8>,
}

/// The year, month and day of a date, with `0` for a missing part.
pub open spec fn date_key(d: Datetime) -> (int, int, int) {
    (
        match d.year {
            Some(y) => y as int,
            None => 0,
        },
        match d.month {
            Some(m) => m as int,
            None => 0,
        },
        match d.day {
            Some(x) => x as int,
            None => 0,
        },
    )
}

/// `format!("{:04}", y)`: at least four characters, zero-padded after
/// the sign.
pub open spec fn year_text(y: int) -> Seq<char> {
    if y >= 0 {
        zpad(dec_nat(y as nat), 4)
    } else {
        seq!['-'] + zpad(dec_nat((-y) as nat), 3)
    }
}

/// The `YYYY-MM-DD` text of a date (`0` for a missing part).
pub open spec fn date_text(d: Datetime) -> Seq<char> {
    let (y, m, x) = date_key(d);
    year_text(y) + seq!['-'] + zpad(dec_nat(m as nat), 2) + seq!['-'] + zpad(dec_nat(x as nat), 2)
}

/// Formats a date as `YYYY-MM-DD`.
pub fn format_date(dt: &Datetime) -> (r: String)
    ensures
        r@ == date_text(*dt),
{
    let y: i32 = match dt.year {
        Some(y) => y,
        None => 0,
    };
    let m: u8 = match dt.month {
        Some(m) => m,
        None => 0,
    };
    let d: u8 = match dt.day {
        Some(d) => d,
        None => 0,
    };
    let mut r = String::new();
    if y >= 0 {
        push_padded(&mut r, y as u64, 4);
    } else {
        push_char(&mut r, '-');
        let a: u64 = if y == i32::MIN {
            2147483648u64
        } else {
            (-y) as u64
        };
        push_padded(&mut r, a, 3);
    }
    push_char(&mut r, '-');
    push_padded(&mut r, m as u64, 2);
    push_char(&mut r, '-');
    push_padded(&mut r, d as u64, 2);
    proof {
        assert(r@ =~= date_text(*dt));
    }
    r
}

// ---------------------------------------------------------------------------
// Tasks
// ---------------------------------------------------------------------------

/// A task extracted from a Typst checklist item.
#[derive(Debug, Clone, PartialEq)]
pub struct Task {
    pub title: String,
    pub done: bool,
    pub due: Option<Datetime>,
    pub start: Option<Datetime>,
    pub rank: Option<i64>,
    pub tags: Vec<String>,
    /// The task's `#id(..)` text, as written.
    pub id: Option<String>,
    pub position: u32,
    /// Heading path (e.g. "Header 1 > Subheader 1.1"); extraction from a
    /// single list item leaves it empty.
    pub milestone: Option<String>,
}

/// The plain-value form of a [`Task`].
pub struct TaskV {
    pub title: Seq<char>,
    pub done: bool,
    pub due: Option<Datetime>,
    pub start: Option<Datetime>,
    pub rank: Option<i64>,
    pub tags: Seq<Seq<char>>,
    pub id: Option<Seq<char>>,
    pub position: u32,
    pub milestone: Option<Seq<char>>,
}

impl View for Task {
    type V = TaskV;

    open spec fn view(&self) -> TaskV {
        TaskV {
            title: self.title@,
            done: self.done,
            due: self.due,
            start: self.start,
            rank: self.rank,
            tags: strs(self.tags@),
            id: opt_view(&self.id),
            position: self.position,
            milestone: opt_view(&self.milestone),
        }
    }
}

/// The plain form of a sequence of tasks.
pub open spec fn tasks_view(v: Seq<Task>) -> Seq<TaskV> {
    v.map_values(|t: Task| t@)
}

/// A copy of a task.
pub fn copy_task(t: &Task) -> (r: Task)
    ensures
        r@ == t@,
{
    Task {
        title: copy_string(&t.title),
        done: t.done,
        due: t.due,
        start: t.start,
        rank: t.rank,
        tags: copy_strings(&t.tags),
        id: copy_opt(&t.id),
        position: t.position,
        milestone: copy_opt(&t.milestone),
    }
}

/// The value of a metadata pair, as far as tasks read it.
#[derive(Debug, Clone, PartialEq)]
pub enum MetaValue {
    Str(String),
    Datetime(Datetime),
    Int(i64),
    /// Any other value.
    Other,
}

/// A two-element metadata array `(key, value)` in a list item's body.
#[derive(Debug, Clone, PartialEq)]
pub struct MetaEntry {
    pub key: String,
    pub value: MetaValue,
}

/// The checkbox state and title of a list item's text: `[x] ` or `[X] `
/// is done, `[ ] ` is pending; the title is the rest, trimmed.  Any other
/// text is not a task.
pub open spec fn checkbox_spec(text: Seq<char>) -> Option<(bool, Seq<char>)> {
    if has_prefix(text, "[x] "@) || has_prefix(text, "[X] "@) {
        Some((true, trim_spec(text.skip(4))))
    } else if has_prefix(text, "[ ] "@) {
        Some((false, trim_spec(text.skip(4))))
    } else {
        None
    }
}

/// The due date of a list item: the last `("due", date)` pair.
pub open spec fn meta_due(m: Seq<MetaEntry>) -> Option<Datetime>
    decreases m.len(),
{
    if m.len() == 0 {
        None
    } else if m.last().key@ == "due"@ && m.last().value is Datetime {
        Some(m.last().value->Datetime_0)
    } else {
        meta_due(m.drop_last())
    }
}

/// The start date of a list item: the last `("start", date)` pair.
pub open spec fn meta_start(m: Seq<MetaEntry>) -> Option<Datetime>
    decreases m.len(),
{
    if m.len() == 0 {
        None
    } else if m.last().key@ == "start"@ && m.last().value is Datetime {
        Some(m.last().value->Datetime_0)
    } else {
        meta_start(m.drop_last())
    }
}

/// The rank of a list item: the last `("rank", integer)` pair.
pub open spec fn meta_rank(m: Seq<MetaEntry>) -> Option<i64>
    decreases m.len(),
{
    if m.len() == 0 {
        None
    } else if m.last().key@ == "rank"@ && m.last().value is Int {
        Some(m.last().value->Int_0)
    } else {
        meta_rank(m.drop_last())
    }
}

/// The ID of a list item: the text of the last `("id", text)` pair.
pub open spec fn meta_id(m: Seq<MetaEntry>) -> Option<Seq<char>>
    decreases m.len(),
{
    if m.len() == 0 {
        None
    } else if m.last().key@ == "id"@ && m.last().value is Str {
        Some(m.last().value->Str_0@)
    } else {
        meta_id(m.drop_last())
    }
}

/// The tags of a list item: every `("tag", text)` pair, in order.
pub open spec fn meta_tags(m: Seq<MetaEntry>) -> Seq<Seq<char>>
    decreases m.len(),
{
    if m.len() == 0 {
        Seq::empty()
    } else {
        meta_tags(m.drop_last()) + if m.last().key@ == "tag"@ && m.last().value is Str {
            seq![m.last().value->Str_0@]
        } else {
            Seq::empty()
        }
    }
}

/// The task of a list item with plain text `text` and body metadata
/// `meta` (position 0), if it is one.
pub open spec fn task_spec(text: Seq<char>, meta: Seq<MetaEntry>) -> Option<TaskV> {
    match checkbox_spec(text) {
        None => None,
        Some((done, title)) => Some(
            TaskV {
                title,
                done,
                due: meta_due(meta),
                start: meta_start(meta),
                rank: meta_rank(meta),
                tags: meta_tags(meta),
                id: meta_id(meta),
                position: 0,
                milestone: None,
            },
        ),
    }
}

fn checkbox(text: &str) -> (r: Option<(bool, String)>)
    ensures
        match r {
            Some((d, t)) => checkbox_spec(text@) == Some((d, t@)),
            None => checkbox_spec(text@) is None,
        },
{
    let v = chars_of(text);
    proof {
        reveal_strlit("[x] ");
        reveal_strlit("[X] ");
        reveal_strlit("[ ] ");
    }
    let done = if starts_with(&v, &chars_of("[x] ")) || starts_with(&v, &chars_of("[X] ")) {
        true
    } else if starts_with(&v, &chars_of("[ ] ")) {
        false
    } else {
        return None;
    };
    let rest = slice_vec(&v, 4, v.len());
    assert(rest@ =~= v@.skip(4));
    let title = trim_chars(&rest);
    Some((done, string_of(&title)))
}

/// Reads a task from a list item's plain text and body metadata.
///
/// Returns `None` if the text does not start with a checkbox marker.
pub fn extract_task(text: &str, meta: &Vec<MetaEntry>) -> (r: Option<Task>)
    ensures
        match r {
            Some(t) => task_spec(text@, meta@) == Some(t@),
            None => task_spec(text@, meta@) is None,
        },
{
    let (done, title) = match checkbox(text) {
        Some(x) => x,
        None => return None,
    };
    let mut due: Option<Datetime> = None;
    let mut start: Option<Datetime> = None;
    let mut rank: Option<i64> = None;
    let mut id: Option<String> = None;
    let mut tags: Vec<String> = Vec::new();
    let mut i: usize = 0;
    while i < meta.len()
        invariant
            i <= meta.len(),
            due == meta_due(meta@.take(i as int)),
            start == meta_start(meta@.take(i as int)),
            rank == meta_rank(meta@.take(i as int)),
            opt_view(&id) == meta_id(meta@.take(i as int)),
            strs(tags@) == meta_tags(meta@.take(i as int)),
        decreases meta.len() - i,
    {
        let m = &meta[i];
        assert(meta@.take(i + 1).drop_last() =~= meta@.take(i as int));
        assert(meta@.take(i + 1).last() == meta@[i as int]);
        let ghost k = m.key@;
        proof {
            // The five keys differ in their first character.
            reveal_strlit("due");
            reveal_strlit("tag");
            reveal_strlit("start");
            reveal_strlit("rank");
            reveal_strlit("id");
            if k.len() > 0 {
                assert(k == "due"@ ==> k[0] == 'd');
                assert(k == "tag"@ ==> k[0] == 't');
                assert(k == "start"@ ==> k[0] == 's');
                assert(k == "rank"@ ==> k[0] == 'r');
                assert(k == "id"@ ==> k[0] == 'i');
            }
        }
        if crate::text::str_eq(m.key.as_str(), "due") {
            match &m.value {
                MetaValue::Datetime(d) => {
                    due = Some(*d);
                },
                _ => {},
            }
        } else if crate::text::str_eq(m.key.as_str(), "start") {
            match &m.value {
                MetaValue::Datetime(d) => {
                    start = Some(*d);
                },
                _ => {},
            }
        } else if crate::text::str_eq(m.key.as_str(), "rank") {
            match &m.value {
                MetaValue::Int(n) => {
                    rank = Some(*n);
                },
                _ => {},
            }
        } else if crate::text::str_eq(m.key.as_str(), "id") {
            match &m.value {
                MetaValue::Str(s) => {
                    id = Some(copy_string(s));
                },
                _ => {},
            }
        } else if crate::text::str_eq(m.key.as_str(), "tag") {
            match &m.value {
                MetaValue::Str(s) => {
                    let c = copy_string(s);
                    let ghost before = tags@;
                    tags.push(c);
                    assert(tags@ == before.push(c));
                    assert(strs(tags@) =~= strs(before).push(c@));
                },
                _ => {},
            }
        }
        i = i + 1;
    }
    assert(meta@.take(meta.len() as int) =~= meta@);
    Some(Task { title, done, due, start, rank, tags, id, position: 0, milestone: None })
}

/// A list item found in a content tree, in traversal order.
#[derive(Debug, Clone, PartialEq)]
pub struct ListItemText {
    pub text: String,
    pub meta: Vec<MetaEntry>,
}

/// The tasks of list items, numbered from `start` in order.
pub open spec fn tasks_of_items(items: Seq<ListItemText>, start: nat) -> Seq<TaskV>
    decreases items.len(),
{
    if items.len() == 0 {
        Seq::empty()
    } else {
        let prev = tasks_of_items(items.drop_last(), start);
        match task_spec(items.last().text@, items.last().meta@) {
            Some(t) => prev.push(TaskV { position: (start + prev.len()) as u32, ..t }),
            None => prev,
        }
    }
}

proof fn lemma_tasks_of_items_len(items: Seq<ListItemText>, start: nat)
    ensures
        tasks_of_items(items, start).len() <= items.len(),
    decreases items.len(),
{
    if items.len() > 0 {
        lemma_tasks_of_items_len(items.drop_last(), start);
    }
}

/// Appends the tasks among `items` to `tasks`, numbering them in order
/// from 0.
pub fn collect_tasks(items: &Vec<ListItemText>, tasks: &mut Vec<Task>)
    requires
        items.len() <= u32::MAX,
    ensures
        tasks_view(final(tasks)@) == tasks_view(old(tasks)@) + tasks_of_items(items@, 0),
{
    let ghost start = tasks_view(tasks@);
    let mut position: u32 = 0;
    let mut i: usize = 0;
    while i < items.len()
        invariant
            i <= items.len() <= u32::MAX,
            tasks_view(tasks@) == start + tasks_of_items(items@.take(i as int), 0),
            position as int == tasks_of_items(items@.take(i as int), 0).len(),
            position <= i,
        decreases items.len() - i,
    {
        let item = &items[i];
        assert(items@.take(i + 1).drop_last() =~= items@.take(i as int));
        proof {
            lemma_tasks_of_items_len(items@.take(i as int), 0);
        }
        match extract_task(item.text.as_str(), &item.meta) {
            Some(t) => {
                let mut t = t;
                t.position = position;
                let ghost before = tasks@;
                tasks.push(t);
                assert(tasks@ == before.push(t));
                assert(tasks_view(tasks@) =~= tasks_view(before).push(t@));
                position = position + 1;
            },
            None => {},
        }
        i = i + 1;
    }
    assert(items@.take(items.len() as int) =~= items@);
}

/// The file title: the first heading's plain text, trimmed.
pub fn extract_file_title(first_heading: Option<&str>) -> (r: Option<String>)
    ensures
        match first_heading {
            Some(h) => r matches Some(t) && t@ == trim_spec(h@),
            None => r is None,
        },
{
    match first_heading {
        Some(h) => Some(string_of(&trim_chars(&chars_of(h)))),
        None => None,
    }
}

// ---------------------------------------------------------------------------
// Bindings
// ---------------------------------------------------------------------------

/// The value of a `#let` binding, as far as bindings are recorded.
#[derive(Debug, Clone, PartialEq)]
pub enum BindingValue {
    Str(String),
    Int(i64),
    /// A float, by its `to_string` text.
    Float(String),
    Bool(bool),
    Datetime(Datetime),
    Null,
    /// A function or any other value: not recorded.
    Other,
}

/// The recorded `(value type, value JSON)` of a binding's value, if it is
/// recorded at all.
pub open spec fn binding_spec(v: &BindingValue) -> Option<(Seq<char>, Seq<char>)> {
    match v {
        BindingValue::Str(s) => Some(("string"@, seq!['"'] + s@ + seq!['"'])),
        BindingValue::Int(i) => Some(("int"@, crate::text::dec_int(*i as int))),
        BindingValue::Float(f) => Some(("float"@, f@)),
        BindingValue::Bool(b) => Some(("bool"@, if *b { "true"@ } else { "false"@ })),
        BindingValue::Datetime(d) => Some(("date"@, seq!['"'] + date_text(*d) + seq!['"'])),
        BindingValue::Null => Some(("none"@, "null"@)),
        BindingValue::Other => None,
    }
}

/// The recorded form of a binding value.
pub fn binding_entry(v: &BindingValue) -> (r: Option<(String, String)>)
    ensures
        match r {
            Some((t, j)) => binding_spec(v) == Some((t@, j@)),
            None => binding_spec(v) is None,
        },
{
    match v {
        BindingValue::Str(s) => {
            let mut j = String::new();
            push_char(&mut j, '"');
            push_str(&mut j, s.as_str());
            push_char(&mut j, '"');
            Some(("string".to_string(), j))
        },
        BindingValue::Int(i) => {
            let mut j = String::new();
            crate::text::push_i64(&mut j, *i);
            Some(("int".to_string(), j))
        },
        BindingValue::Float(f) => Some(("float".to_string(), copy_string(f))),
        BindingValue::Bool(b) => Some(
            ("bool".to_string(), if *b { "true".to_string() } else { "false".to_string() }),
        ),
        BindingValue::Datetime(d) => {
            let mut j = String::new();
            push_char(&mut j, '"');
            let t = format_date(d);
            push_str(&mut j, t.as_str());
            push_char(&mut j, '"');
            Some(("date".to_string(), j))
        },
        BindingValue::Null => Some(("none".to_string(), "null".to_string())),
        BindingValue::Other => None,
    }
}

/// The recorded bindings of a scope, in scope order: `(name, value type,
/// value JSON)` for each recorded value.
pub open spec fn bindings_spec(scope: Seq<(String, BindingValue)>) -> Seq<
    (Seq<char>, Seq<char>, Seq<char>),
>
    decreases scope.len(),
{
    if scope.len() == 0 {
        Seq::empty()
    } else {
        bindings_spec(scope.drop_last()) + match binding_spec(&scope.last().1) {
            Some((t, j)) => seq![(scope.last().0@, t, j)],
            None => Seq::empty(),
        }
    }
}

/// The plain form of recorded bindings.
pub open spec fn triples_view(v: Seq<(String, String, String)>) -> Seq<
    (Seq<char>, Seq<char>, Seq<char>),
> {
    v.map_values(|b: (String, String, String)| (b.0@, b.1@, b.2@))
}

/// Records the bindings of a scope.
pub fn extract_bindings(scope: &Vec<(String, BindingValue)>) -> (r: Vec<(String, String, String)>)
    ensures
        triples_view(r@) == bindings_spec(scope@),
{
    let mut out: Vec<(String, String, String)> = Vec::new();
    let mut i: usize = 0;
    while i < scope.len()
        invariant
            i <= scope.len(),
            triples_view(out@) == bindings_spec(scope@.take(i as int)),
        decreases scope.len() - i,
    {
        assert(scope@.take(i + 1).drop_last() =~= scope@.take(i as int));
        let (name, value) = &scope[i];
        match binding_entry(value) {
            Some((t, j)) => {
                let e = (copy_string(name), t, j);
                let ghost before = out@;
                out.push(e);
                assert(out@ == before.push(e));
                assert(triples_view(out@) =~= triples_view(before).push((e.0@, e.1@, e.2@)));
            },
            None => {},
        }
        i = i + 1;
    }
    assert(scope@.take(scope.len() as int) =~= scope@);
    out
}

// ---------------------------------------------------------------------------
// Evaluation results and errors
// ---------------------------------------------------------------------------

/// Full result from evaluating a `.typ` file.
#[derive(Debug, Clone, PartialEq)]
pub struct EvalResult {
    pub tasks: Vec<Task>,
    pub title: Option<String>,
    /// Bindings as `(name, value_type, value_json)`.
    pub bindings: Vec<(String, String, String)>,
    /// File dependencies (paths relative to the project root).
    pub dependencies: Vec<String>,
}

/// Errors that can occur during Typst evaluation.
#[derive(Debug, Clone, PartialEq)]
pub enum EvalError {
    /// The source file could not be read.
    File(String),
    /// Typst evaluation produced errors.
    Eval(String),
    /// The world could not be constructed.
    World(String),
}

/// The message of an evaluation error.
pub open spec fn eval_error_message(e: &EvalError) -> Seq<char> {
    match e {
        EvalError::File(s) => "file error: "@ + s@,
        EvalError::Eval(s) => "eval error: "@ + s@,
        EvalError::World(s) => s@,
    }
}

impl EvalError {
    /// The error's message, as its `Display` form would print it.
    pub fn message(&self) -> (r: String)
        ensures
            r@ == eval_error_message(self),
    {
        let mut r = String::new();
        match self {
            EvalError::File(s) => {
                push_str(&mut r, "file error: ");
                push_str(&mut r, s.as_str());
            },
            EvalError::Eval(s) => {
                push_str(&mut r, "eval error: ");
                push_str(&mut r, s.as_str());
            },
            EvalError::World(s) => {
                push_str(&mut r, s.as_str());
            },
        }
        r
    }
}

// ---------------------------------------------------------------------------
// Listing tasks
// ---------------------------------------------------------------------------

/// The sort key of a date: `(year, month, day)`, `0` for a missing part.
pub fn due_sort_key(dt: &Datetime) -> (r: (i32, u8, u8))
    ensures
        (r.0 as int, r.1 as int, r.2 as int) == date_key(*dt),
{
    (
        match dt.year {
            Some(y) => y,
            None => 0,
        },
        match dt.month {
            Some(m) => m,
            None => 0,
        },
        match dt.day {
            Some(d) => d,
            None => 0,
        },
    )
}

/// Formats a due date as `YYYY-MM-DD`.
pub fn format_due(dt: &Datetime) -> (r: String)
    ensures
        r@ == date_text(*dt),
{
    format_date(dt)
}

/// The line of a task: `- (due YYYY-MM-DD) Title`, or `- Title`.
pub open spec fn task_line(t: TaskV) -> Seq<char> {
    match t.due {
        Some(d) => "- (due "@ + date_text(d) + ") "@ + t.title,
        None => "- "@ + t.title,
    }
}

/// Formats a task as one line.
pub fn format_task(task: &Task) -> (r: String)
    ensures
        r@ == task_line(task@),
{
    let mut r = String::new();
    match &task.due {
        Some(d) => {
            push_str(&mut r, "- (due ");
            let t = format_due(d);
            push_str(&mut r, t.as_str());
            push_str(&mut r, ") ");
            push_str(&mut r, task.title.as_str());
        },
        None => {
            push_str(&mut r, "- ");
            push_str(&mut r, task.title.as_str());
        },
    }
    r
}

/// `(year, month, day)` keys in lexicographic order.
pub open spec fn key_le(a: (int, int, int), b: (int, int, int)) -> bool {
    a.0 < b.0 || (a.0 == b.0 && (a.1 < b.1 || (a.1 == b.1 && a.2 <= b.2)))
}

/// The due key of a task (`(0, 0, 0)` without a due date).
pub open spec fn task_key(t: TaskV) -> (int, int, int) {
    match t.due {
        Some(d) => date_key(d),
        None => (0, 0, 0),
    }
}

/// Where insertion puts `x` in `s`: after the last element whose key is
/// at most `x`'s.
pub open spec fn insert_pos(s: Seq<TaskV>, x: TaskV) -> int
    decreases s.len(),
{
    if s.len() == 0 {
        0
    } else if key_le(task_key(s.last()), task_key(x)) {
        s.len() as int
    } else {
        insert_pos(s.drop_last(), x)
    }
}

/// `x` inserted into `s` at its insertion point.
pub open spec fn insert_by_key(s: Seq<TaskV>, x: TaskV) -> Seq<TaskV> {
    s.take(insert_pos(s, x)).push(x) + s.skip(insert_pos(s, x))
}

/// A stable sort of tasks by due key (insertion sort).
pub open spec fn sort_by_due(s: Seq<TaskV>) -> Seq<TaskV>
    decreases s.len(),
{
    if s.len() == 0 {
        Seq::empty()
    } else {
        insert_by_key(sort_by_due(s.drop_last()), s.last())
    }
}

/// The tasks that are not done, in order.
pub open spec fn pending_tasks(s: Seq<TaskV>) -> Seq<TaskV>
    decreases s.len(),
{
    if s.len() == 0 {
        Seq::empty()
    } else {
        pending_tasks(s.drop_last()) + if !s.last().done {
            seq![s.last()]
        } else {
            Seq::empty()
        }
    }
}

/// The tasks that have a due date, in order.
pub open spec fn dated_tasks(s: Seq<TaskV>) -> Seq<TaskV>
    decreases s.len(),
{
    if s.len() == 0 {
        Seq::empty()
    } else {
        dated_tasks(s.drop_last()) + if s.last().due is Some {
            seq![s.last()]
        } else {
            Seq::empty()
        }
    }
}

/// The listed tasks: pending ones; with `due_only`, only those with a due
/// date, sorted by due date (stably); then at most `limit` of them.
pub open spec fn listed_tasks(s: Seq<TaskV>, due_only: bool, limit: Option<usize>) -> Seq<TaskV> {
    let p = pending_tasks(s);
    let q = if due_only {
        sort_by_due(dated_tasks(p))
    } else {
        p
    };
    match limit {
        Some(n) => if n < q.len() {
            q.take(n as int)
        } else {
            q
        },
        None => q,
    }
}

proof fn lemma_insert_pos(s: Seq<TaskV>, x: TaskV)
    ensures
        0 <= insert_pos(s, x) <= s.len(),
    decreases s.len(),
{
    if s.len() > 0 && !key_le(task_key(s.last()), task_key(x)) {
        lemma_insert_pos(s.drop_last(), x);
    }
}

proof fn lemma_insert_pos_prefix(s: Seq<TaskV>, x: TaskV, p: int)
    requires
        0 <= p <= s.len(),
        forall|j: int| p <= j < s.len() ==> !key_le(task_key(#[trigger] s[j]), task_key(x)),
    ensures
        insert_pos(s, x) == insert_pos(s.take(p), x),
    decreases s.len() - p,
{
    if p < s.len() {
        assert(s.drop_last() =~= s.take(s.len() - 1));
        assert(!key_le(task_key(s.last()), task_key(x)));
        lemma_insert_pos_prefix(s.drop_last(), x, p);
        assert(s.drop_last().take(p) =~= s.take(p));
    } else {
        assert(s.take(p) =~= s);
    }
}

proof fn lemma_sort_len(s: Seq<TaskV>)
    ensures
        sort_by_due(s).len() == s.len(),
    decreases s.len(),
{
    if s.len() > 0 {
        lemma_sort_len(s.drop_last());
        lemma_insert_pos(sort_by_due(s.drop_last()), s.last());
    }
}

fn task_key_le(a: &Task, b: &Task) -> (r: bool)
    ensures
        r == key_le(task_key(a@), task_key(b@)),
{
    let ka: (i32, u8, u8) = match &a.due {
        Some(d) => due_sort_key(d),
        None => (0, 0, 0),
    };
    let kb: (i32, u8, u8) = match &b.due {
        Some(d) => due_sort_key(d),
        None => (0, 0, 0),
    };
    ka.0 < kb.0 || (ka.0 == kb.0 && (ka.1 < kb.1 || (ka.1 == kb.1 && ka.2 <= kb.2)))
}

/// Sorts tasks by due date, keeping the order of tasks with equal dates.
fn sort_tasks_by_due(tasks: Vec<Task>) -> (r: Vec<Task>)
    ensures
        tasks_view(r@) == sort_by_due(tasks_view(tasks@)),
{
    let mut out: Vec<Task> = Vec::new();
    let mut i: usize = 0;
    while i < tasks.len()
        invariant
            i <= tasks.len(),
            tasks_view(out@) == sort_by_due(tasks_view(tasks@).take(i as int)),
            out.len() == i,
        decreases tasks.len() - i,
    {
        let x = copy_task(&tasks[i]);
        let ghost s = tasks_view(out@);
        let ghost xv = x@;
        let mut p = out.len();
        assert(s.take(p as int) =~= s);
        while p > 0 && !task_key_le(&out[p - 1], &x)
            invariant
                p <= out.len(),
                s == tasks_view(out@),
                xv == x@,
                insert_pos(s, xv) == insert_pos(s.take(p as int), xv),
            decreases p,
        {
            proof {
                assert(s.take(p as int).drop_last() =~= s.take(p - 1));
                assert(s.take(p as int).last() == s[p - 1]);
            }
            p = p - 1;
        }
        proof {
            if p > 0 {
                assert(s.take(p as int).last() == s[p - 1]);
                assert(insert_pos(s.take(p as int), xv) == p);
            } else {
                assert(insert_pos(s.take(0), xv) == 0);
            }
        }
        let ghost before = out@;
        out.insert(p, x);
        proof {
            let t = tasks_view(tasks@).take(i + 1);
            assert(t.drop_last() =~= tasks_view(tasks@).take(i as int));
            assert(t.last() == xv);
            assert(tasks_view(out@) =~= s.take(p as int).push(xv) + s.skip(p as int));
        }
        i = i + 1;
    }
    assert(tasks_view(tasks@).take(tasks.len() as int) =~= tasks_view(tasks@));
    out
}

/// Lists tasks: drops done ones; with `due_only`, keeps only tasks with a
/// due date and sorts them by due date (stably); then keeps at most
/// `limit`.
pub fn filter_and_sort(tasks: Vec<Task>, due_only: bool, limit: Option<usize>) -> (r: Vec<Task>)
    ensures
        tasks_view(r@) == listed_tasks(tasks_view(tasks@), due_only, limit),
{
    let ghost all = tasks_view(tasks@);
    let mut pending: Vec<Task> = Vec::new();
    let mut i: usize = 0;
    while i < tasks.len()
        invariant
            i <= tasks.len(),
            all == tasks_view(tasks@),
            tasks_view(pending@) == pending_tasks(all.take(i as int)),
        decreases tasks.len() - i,
    {
        proof {
            assert(all.take(i + 1).drop_last() =~= all.take(i as int));
            assert(all.take(i + 1).last() == all[i as int]);
        }
        if !tasks[i].done {
            let t = copy_task(&tasks[i]);
            let ghost before = pending@;
            pending.push(t);
            assert(pending@ == before.push(t));
            assert(tasks_view(pending@) =~= tasks_view(before).push(t@));
        }
        i = i + 1;
    }
    assert(all.take(tasks.len() as int) =~= all);
    let ghost p = tasks_view(pending@);
    let mut chosen: Vec<Task> = if due_only {
        let mut dated: Vec<Task> = Vec::new();
        let mut k: usize = 0;
        while k < pending.len()
            invariant
                k <= pending.len(),
                p == tasks_view(pending@),
                tasks_view(dated@) == dated_tasks(p.take(k as int)),
            decreases pending.len() - k,
        {
            proof {
                assert(p.take(k + 1).drop_last() =~= p.take(k as int));
                assert(p.take(k + 1).last() == p[k as int]);
            }
            if pending[k].due.is_some() {
                let t = copy_task(&pending[k]);
                let ghost before = dated@;
                dated.push(t);
                assert(dated@ == before.push(t));
                assert(tasks_view(dated@) =~= tasks_view(before).push(t@));
            }
            k = k + 1;
        }
        assert(p.take(pending.len() as int) =~= p);
        sort_tasks_by_due(dated)
    } else {
        pending
    };
    let ghost q = tasks_view(chosen@);
    if let Some(n) = limit {
        if n < chosen.len() {
            chosen.truncate(n);
            assert(tasks_view(chosen@) =~= q.take(n as int));
        }
    }
    chosen
}


/// Keys in order: each task's due key is at most the next ones'.
pub open spec fn sorted_by_key(s: Seq<TaskV>) -> bool {
    forall|i: int, j: int| 0 <= i < j < s.len() ==> key_le(task_key(s[i]), task_key(s[j]))
}

proof fn lemma_insert_pos_bounds(s: Seq<TaskV>, x: TaskV)
    ensures
        0 <= insert_pos(s, x) <= s.len(),
        forall|j: int| insert_pos(s, x) <= j < s.len() ==> !key_le(task_key(#[trigger] s[j]), task_key(x)),
        insert_pos(s, x) > 0 ==> key_le(task_key(s[insert_pos(s, x) - 1]), task_key(x)),
    decreases s.len(),
{
    if s.len() > 0 && !key_le(task_key(s.last()), task_key(x)) {
        let d = s.drop_last();
        lemma_insert_pos_bounds(d, x);
        assert forall|j: int| insert_pos(s, x) <= j < s.len() implies !key_le(task_key(#[trigger] s[j]), task_key(x)) by {
            if j < s.len() - 1 {
                assert(s[j] == d[j]);
            }
        }
        if insert_pos(s, x) > 0 {
            assert(s[insert_pos(s, x) - 1] == d[insert_pos(s, x) - 1]);
        }
    }
}

proof fn lemma_insert_sorted(s: Seq<TaskV>, x: TaskV)
    requires
        sorted_by_key(s),
    ensures
        sorted_by_key(insert_by_key(s, x)),
        insert_by_key(s, x).len() == s.len() + 1,
        forall|i: int| 0 <= i < insert_by_key(s, x).len() ==> (s.contains(#[trigger] insert_by_key(s, x)[i]) || insert_by_key(s, x)[i] == x),
{
    lemma_insert_pos_bounds(s, x);
    let p = insert_pos(s, x);
    let r = insert_by_key(s, x);
    assert(r.len() == s.len() + 1);
    assert forall|i: int| 0 <= i < r.len() implies (r[i] == if i < p { s[i] } else if i == p { x } else { s[i - 1] }) by {}
    assert forall|i: int, j: int| 0 <= i < j < r.len() implies key_le(task_key(r[i]), task_key(r[j])) by {
        if j < p {
        } else if j == p {
            if i < p - 1 {
                assert(key_le(task_key(s[i]), task_key(s[p - 1])));
            }
        } else if i == p {
            assert(!key_le(task_key(s[j - 1]), task_key(x)));
        } else if i < p {
            assert(key_le(task_key(s[i]), task_key(s[j - 1])));
        } else {
            assert(key_le(task_key(s[i - 1]), task_key(s[j - 1])));
        }
    }
    assert forall|i: int| 0 <= i < r.len() implies (s.contains(#[trigger] r[i]) || r[i] == x) by {
        if i < p {
            assert(s[i] == r[i]);
        } else if i > p {
            assert(s[i - 1] == r[i]);
        }
    }
}

proof fn lemma_sort_sorted(s: Seq<TaskV>)
    ensures
        sorted_by_key(sort_by_due(s)),
        forall|i: int| 0 <= i < sort_by_due(s).len() ==> s.contains(#[trigger] sort_by_due(s)[i]),
    decreases s.len(),
{
    if s.len() > 0 {
        let d = s.drop_last();
        lemma_sort_sorted(d);
        let t = sort_by_due(d);
        lemma_insert_sorted(t, s.last());
        assert forall|i: int| 0 <= i < sort_by_due(s).len() implies s.contains(#[trigger] sort_by_due(s)[i]) by {
            let y = sort_by_due(s)[i];
            if y != s.last() {
                assert(t.contains(y));
                let k = choose|k: int| 0 <= k < t.len() && t[k] == y;
                assert(d.contains(t[k]));
                let m = choose|m: int| 0 <= m < d.len() && d[m] == y;
                assert(s[m] == y);
            } else {
                assert(s[s.len() - 1] == y);
            }
        }
    }
}

proof fn lemma_pending(s: Seq<TaskV>)
    ensures
        forall|i: int| 0 <= i < pending_tasks(s).len() ==> !(#[trigger] pending_tasks(s)[i]).done && s.contains(pending_tasks(s)[i]),
    decreases s.len(),
{
    if s.len() > 0 {
        let d = s.drop_last();
        lemma_pending(d);
        assert forall|i: int| 0 <= i < pending_tasks(s).len() implies !(#[trigger] pending_tasks(s)[i]).done && s.contains(pending_tasks(s)[i]) by {
            if i < pending_tasks(d).len() {
                assert(pending_tasks(s)[i] == pending_tasks(d)[i]);
                let m = choose|m: int| 0 <= m < d.len() && d[m] == pending_tasks(d)[i];
                assert(s[m] == d[m]);
            } else {
                assert(pending_tasks(s)[i] == s.last());
                assert(s[s.len() - 1] == s.last());
            }
        }
    }
}

proof fn lemma_dated(s: Seq<TaskV>)
    ensures
        forall|i: int| 0 <= i < dated_tasks(s).len() ==> (#[trigger] dated_tasks(s)[i]).due is Some && s.contains(dated_tasks(s)[i]),
    decreases s.len(),
{
    if s.len() > 0 {
        let d = s.drop_last();
        lemma_dated(d);
        assert forall|i: int| 0 <= i < dated_tasks(s).len() implies (#[trigger] dated_tasks(s)[i]).due is Some && s.contains(dated_tasks(s)[i]) by {
            if i < dated_tasks(d).len() {
                assert(dated_tasks(s)[i] == dated_tasks(d)[i]);
                let m = choose|m: int| 0 <= m < d.len() && d[m] == dated_tasks(d)[i];
                assert(s[m] == d[m]);
            } else {
                assert(dated_tasks(s)[i] == s.last());
                assert(s[s.len() - 1] == s.last());
            }
        }
    }
}

/// What `eval` lists is drawn from the given tasks and holds no done task,
/// never more than the limit; with `due_only`, every listed task has a due
/// date and they come in order of due date.
pub proof fn law_listing(s: Seq<TaskV>, due_only: bool, limit: Option<usize>)
    ensures
        forall|i: int| 0 <= i < listed_tasks(s, due_only, limit).len() ==> {
            let t = #[trigger] listed_tasks(s, due_only, limit)[i];
            &&& !t.done
            &&& s.contains(t)
            &&& due_only ==> t.due is Some
        },
        due_only ==> sorted_by_key(listed_tasks(s, due_only, limit)),
        limit matches Some(n) ==> listed_tasks(s, due_only, limit).len() <= n,
{
    let p = pending_tasks(s);
    lemma_pending(s);
    let q = if due_only { sort_by_due(dated_tasks(p)) } else { p };
    if due_only {
        lemma_dated(p);
        lemma_sort_sorted(dated_tasks(p));
    }
    assert forall|i: int| 0 <= i < q.len() implies !(#[trigger] q[i]).done && s.contains(q[i]) && (due_only ==> q[i].due is Some) by {
        if due_only {
            let x = q[i];
            assert(dated_tasks(p).contains(x));
            let a = choose|a: int| 0 <= a < dated_tasks(p).len() && dated_tasks(p)[a] == x;
            assert(p.contains(dated_tasks(p)[a]));
            let b = choose|b: int| 0 <= b < p.len() && p[b] == x;
            assert(!p[b].done && s.contains(p[b]));
        }
    }
    let r = listed_tasks(s, due_only, limit);
    assert forall|i: int| 0 <= i < r.len() implies r[i] == q[i] by {}
}


/// A task is not done.
pub open spec fn is_pending(t: TaskV) -> bool {
    !t.done
}

/// A task has a due date.
pub open spec fn is_dated(t: TaskV) -> bool {
    t.due is Some
}

proof fn lemma_pending_is_filter(s: Seq<TaskV>)
    ensures
        pending_tasks(s) == s.filter(|t: TaskV| is_pending(t)),
    decreases s.len(),
{
    if s.len() > 0 {
        lemma_pending_is_filter(s.drop_last());
        s.drop_last().lemma_filter_push(s.last(), |t: TaskV| is_pending(t));
        assert(s.drop_last().push(s.last()) =~= s);
        if is_pending(s.last()) {
            assert(pending_tasks(s) =~= pending_tasks(s.drop_last()).push(s.last()));
        } else {
            assert(pending_tasks(s) =~= pending_tasks(s.drop_last()));
        }
    } else {
        reveal(Seq::filter);
    }
}

proof fn lemma_dated_is_filter(s: Seq<TaskV>)
    ensures
        dated_tasks(s) == s.filter(|t: TaskV| is_dated(t)),
    decreases s.len(),
{
    if s.len() > 0 {
        lemma_dated_is_filter(s.drop_last());
        s.drop_last().lemma_filter_push(s.last(), |t: TaskV| is_dated(t));
        assert(s.drop_last().push(s.last()) =~= s);
        if is_dated(s.last()) {
            assert(dated_tasks(s) =~= dated_tasks(s.drop_last()).push(s.last()));
        } else {
            assert(dated_tasks(s) =~= dated_tasks(s.drop_last()));
        }
    } else {
        reveal(Seq::filter);
    }
}

proof fn lemma_sort_keeps_tasks(s: Seq<TaskV>)
    ensures
        sort_by_due(s).to_multiset() == s.to_multiset(),
    decreases s.len(),
{
    if s.len() > 0 {
        let d = s.drop_last();
        lemma_sort_keeps_tasks(d);
        let t = sort_by_due(d);
        lemma_insert_pos_bounds(t, s.last());
        let p = insert_pos(t, s.last());
        assert(insert_by_key(t, s.last()) =~= t.insert(p, s.last()));
        vstd::seq_lib::to_multiset_insert(t, p, s.last());
        vstd::seq_lib::to_multiset_build(d, s.last());
        assert(d.push(s.last()) =~= s);
        assert(sort_by_due(s) == insert_by_key(t, s.last()));
        assert(sort_by_due(s).to_multiset() == t.to_multiset().insert(s.last()));
        assert(s.to_multiset() == d.to_multiset().insert(s.last()));
    } else {
        assert(s =~= Seq::<TaskV>::empty());
        assert(sort_by_due(s) =~= Seq::<TaskV>::empty());
    }
}

/// Without a limit, `eval` lists every pending task (with `due_only`,
/// every pending task that has a due date), each as often as it was
/// given: the listing holds exactly those tasks.
pub proof fn law_listing_complete(s: Seq<TaskV>, due_only: bool)
    ensures
        listed_tasks(s, due_only, None).to_multiset() == (if due_only {
            s.filter(|t: TaskV| is_pending(t)).filter(|t: TaskV| is_dated(t))
        } else {
            s.filter(|t: TaskV| is_pending(t))
        }).to_multiset(),
{
    lemma_pending_is_filter(s);
    if due_only {
        let p = pending_tasks(s);
        lemma_dated_is_filter(p);
        lemma_sort_keeps_tasks(dated_tasks(p));
    }
}


/// Whether a metadata entry is a tag: key `tag` with a text value.
pub open spec fn is_tag_entry(e: MetaEntry) -> bool {
    e.key@ == "tag"@ && e.value is Str
}

proof fn lemma_meta_tags_filter(m: Seq<MetaEntry>)
    ensures
        meta_tags(m) == m.filter(|e: MetaEntry| is_tag_entry(e)).map_values(|e: MetaEntry| e.value->Str_0@),
    decreases m.len(),
{
    reveal(Seq::filter);
    if m.len() > 0 {
        lemma_meta_tags_filter(m.drop_last());
        let f = m.drop_last().filter(|e: MetaEntry| is_tag_entry(e));
        if is_tag_entry(m.last()) {
            assert(f.push(m.last()).map_values(|e: MetaEntry| e.value->Str_0@) =~= f.map_values(
                |e: MetaEntry| e.value->Str_0@,
            ).push(m.last().value->Str_0@));
        }
        assert(meta_tags(m) =~= m.filter(|e: MetaEntry| is_tag_entry(e)).map_values(
            |e: MetaEntry| e.value->Str_0@,
        ));
    }
}

/// A task's tags are the texts of all of its item's tag entries, in order:
/// as many tags as there are `("tag", text)` entries.
pub proof fn law_extracted_tags(text: Seq<char>, meta: Seq<MetaEntry>)
    ensures
        task_spec(text, meta) matches Some(t) ==> t.tags == meta.filter(|e: MetaEntry| is_tag_entry(e)).map_values(
            |e: MetaEntry| e.value->Str_0@,
        ),
{
    lemma_meta_tags_filter(meta);
}

}
