//! Text, Typst and CSV renderings of query results.

use vstd::prelude::*;
use crate::index;
use crate::store::{FileView, IndexStats, TaskView, TaskViewV};
use crate::text::{
    chars_of, copy_string, dec_int, join, join_strings, opt_view, push_char, push_chars, push_i64,
    push_str, strs,
};

verus! {

broadcast use vstd::string::group_string_axioms;

// ---------------------------------------------------------------------------
// Plain text
// ---------------------------------------------------------------------------

/// The line of a task of the index: checkbox, due date, title, tags.
pub open spec fn task_view_line(
    is_done: bool,
    due: Option<Seq<char>>,
    title: Seq<char>,
    tags: Seq<Seq<char>>,
) -> Seq<char> {
    "- "@ + (if is_done { "[x]"@ } else { "[ ]"@ }) + (match due {
        Some(d) => " (due "@ + d + ")"@,
        None => Seq::empty(),
    }) + " "@ + title + (if tags.len() == 0 {
        Seq::empty()
    } else {
        " ["@ + join(tags, ", "@) + "]"@
    })
}

/// Formats a task of the index as one line:
/// `- [ ] (due 2026-03-01) Title [tag, tag]`.
pub fn format_task_view(task: &index::TaskView) -> (r: String)
    ensures
        r@ == task_view_line(task.is_done, opt_view(&task.due), task.title@, strs(task.tags@)),
{
    let mut r = String::new();
    push_str(&mut r, "- ");
    push_str(&mut r, if task.is_done { "[x]" } else { "[ ]" });
    if let Some(d) = &task.due {
        push_str(&mut r, " (due ");
        push_str(&mut r, d.as_str());
        push_str(&mut r, ")");
    }
    push_str(&mut r, " ");
    push_str(&mut r, task.title.as_str());
    if task.tags.len() > 0 {
        push_str(&mut r, " [");
        let j = join_strings(&task.tags, ", ");
        push_str(&mut r, j.as_str());
        push_str(&mut r, "]");
    }
    r
}

/// The line of an indexed file: path, task count, title.
pub open spec fn file_view_line(path: Seq<char>, count: i64, title: Option<Seq<char>>) -> Seq<char> {
    path + " ("@ + dec_int(count as int) + (if count == 1 { " task)"@ } else { " tasks)"@ })
        + match title {
        Some(t) => "  "@ + t,
        None => Seq::empty(),
    }
}

/// Formats an indexed file as one line: `path (N tasks)  Title`.
pub fn format_file_view(file: &FileView) -> (r: String)
    ensures
        r@ == file_view_line(file.file_path@, file.task_count, opt_view(&file.title)),
{
    let mut r = String::new();
    push_str(&mut r, file.file_path.as_str());
    push_str(&mut r, " (");
    push_i64(&mut r, file.task_count);
    push_str(&mut r, if file.task_count == 1 { " task)" } else { " tasks)" });
    if let Some(t) = &file.title {
        push_str(&mut r, "  ");
        push_str(&mut r, t.as_str());
    }
    r
}

/// The lines of the index statistics.
pub open spec fn stats_text(
    files: i64,
    tasks: i64,
    pending: i64,
    done: i64,
    updated: Option<Seq<char>>,
) -> Seq<char> {
    "files:   "@ + dec_int(files as int) + "\n"@ + "tasks:   "@ + dec_int(tasks as int) + " ("@
        + dec_int(pending as int) + " pending, "@ + dec_int(done as int) + " done)"@ + match updated {
        Some(ts) => "\n"@ + "updated: "@ + ts,
        None => Seq::empty(),
    }
}

/// Formats the index statistics, one figure per line.
pub fn format_stats(stats: &IndexStats) -> (r: String)
    ensures
        r@ == stats_text(
            stats.file_count,
            stats.task_count,
            stats.pending_count,
            stats.done_count,
            opt_view(&stats.last_updated),
        ),
{
    let mut r = String::new();
    push_str(&mut r, "files:   ");
    push_i64(&mut r, stats.file_count);
    push_str(&mut r, "\n");
    push_str(&mut r, "tasks:   ");
    push_i64(&mut r, stats.task_count);
    push_str(&mut r, " (");
    push_i64(&mut r, stats.pending_count);
    push_str(&mut r, " pending, ");
    push_i64(&mut r, stats.done_count);
    push_str(&mut r, " done)");
    if let Some(ts) = &stats.last_updated {
        push_str(&mut r, "\n");
        push_str(&mut r, "updated: ");
        push_str(&mut r, ts.as_str());
    }
    r
}

// ---------------------------------------------------------------------------
// Typst
// ---------------------------------------------------------------------------

/// The pieces of `s` between `-` characters (`str::split('-')`).
pub open spec fn dash_pieces(s: Seq<char>) -> Seq<Seq<char>>
    decreases s.len(),
{
    match crate::text::find_first(s, seq!['-']) {
        None => seq![s],
        Some(i) => if 0 <= i < s.len() {
            seq![s.take(i)] + dash_pieces(s.skip(i + 1))
        } else {
            seq![s]
        },
    }
}

/// `s` without its leading `0` characters (`trim_start_matches('0')`).
pub open spec fn strip_zeros(s: Seq<char>) -> Seq<char>
    decreases s.len(),
{
    if s.len() > 0 && s[0] == '0' {
        strip_zeros(s.drop_first())
    } else {
        s
    }
}

/// The Typst call `#func(Y, M, D)` of a date text whose first three
/// `-`-pieces are its year, month and day (leading zeros dropped); `None`
/// when it has fewer than three pieces.
pub open spec fn date_call_spec(func: Seq<char>, date: Seq<char>) -> Option<Seq<char>> {
    let p = dash_pieces(date);
    if p.len() < 3 {
        None
    } else {
        Some(
            "#"@ + func + "("@ + strip_zeros(p[0]) + ", "@ + strip_zeros(p[1]) + ", "@
                + strip_zeros(p[2]) + ")"@,
        )
    }
}

proof fn lemma_find_dash(s: Seq<char>, i: int)
    requires
        0 <= i <= s.len(),
        forall|j: int| 0 <= j < i ==> s[j] != '-',
    ensures
        crate::text::find_from(s, seq!['-'], 0) == crate::text::find_from(s, seq!['-'], i),
    decreases i,
{
    if i > 0 {
        lemma_find_dash(s, i - 1);
        let p = seq!['-'];
        assert(s.subrange(i - 1, i)[0] == s[i - 1]);
        assert(s.subrange(i - 1, i) != p);
        lemma_find_step(s, i - 1);
    }
}

proof fn lemma_find_step(s: Seq<char>, k: int)
    requires
        0 <= k < s.len(),
        s[k] != '-',
    ensures
        crate::text::find_from(s, seq!['-'], k) == crate::text::find_from(s, seq!['-'], k + 1),
{
    assert(s.subrange(k, k + 1)[0] == s[k]);
    assert(s.subrange(k, k + 1) != seq!['-']);
}

fn split_dash(v: &Vec<char>) -> (r: Vec<Vec<char>>)
    ensures
        r@.map_values(|x: Vec<char>| x@) == dash_pieces(v@),
    decreases v.len(),
{
    let mut i: usize = 0;
    while i < v.len() && v[i] != '-'
        invariant
            i <= v.len(),
            forall|j: int| 0 <= j < i ==> v@[j] != '-',
        decreases v.len() - i,
    {
        i = i + 1;
    }
    proof {
        lemma_find_dash(v@, i as int);
    }
    if i == v.len() {
        assert(crate::text::find_from(v@, seq!['-'], i as int) is None);
        let mut r: Vec<Vec<char>> = Vec::new();
        let whole = crate::text::slice_vec(v, 0, v.len());
        assert(whole@ =~= v@);
        r.push(whole);
        assert(r@.map_values(|x: Vec<char>| x@)[0] == whole@);
        assert(r@.map_values(|x: Vec<char>| x@) =~= seq![v@]);
        r
    } else {
        assert(v@.subrange(i as int, i + 1) =~= seq!['-']);
        assert(crate::text::find_from(v@, seq!['-'], i as int) == Some(i as int));
        let head = crate::text::slice_vec(v, 0, i);
        let tail = crate::text::slice_vec(v, i + 1, v.len());
        assert(tail@ =~= v@.skip(i + 1));
        assert(head@ =~= v@.take(i as int));
        let rest = split_dash(&tail);
        let mut r: Vec<Vec<char>> = Vec::new();
        r.push(head);
        let mut k: usize = 0;
        let ghost want = dash_pieces(v@);
        while k < rest.len()
            invariant
                k <= rest.len(),
                r.len() == k + 1,
                r@[0]@ == v@.take(i as int),
                forall|m: int| 0 <= m < k ==> #[trigger] r@[m + 1]@ == rest@[m]@,
            decreases rest.len() - k,
        {
            let ghost before = r@;
            r.push(crate::text::slice_vec(&rest[k], 0, rest[k].len()));
            assert(forall|m: int| 0 <= m < k ==> r@[m + 1] == #[trigger] before[m + 1]);
            assert(r@[0] == before[0]);
            k = k + 1;
        }
        proof {
            let got = r@.map_values(|x: Vec<char>| x@);
            let rv = rest@.map_values(|x: Vec<char>| x@);
            assert(got.len() == want.len());
            assert forall|m: int| 0 <= m < got.len() implies got[m] == want[m] by {
                if m > 0 {
                    assert(r@[(m - 1) + 1]@ == rest@[m - 1]@);
                    assert(rv[m - 1] == rest@[m - 1]@);
                }
            }
            assert(got =~= want);
        }
        r
    }
}

fn strip_zeros_of(v: &Vec<char>) -> (r: Vec<char>)
    ensures
        r@ == strip_zeros(v@),
{
    let mut i: usize = 0;
    assert(v@.skip(0) =~= v@);
    while i < v.len() && v[i] == '0'
        invariant
            i <= v.len(),
            strip_zeros(v@.skip(i as int)) == strip_zeros(v@),
        decreases v.len() - i,
    {
        assert(v@.skip(i as int).drop_first() =~= v@.skip(i + 1));
        i = i + 1;
    }
    let r = crate::text::slice_vec(v, i, v.len());
    assert(r@ =~= v@.skip(i as int));
    r
}

/// Converts a `YYYY-MM-DD` date text to the Typst call `#func(Y, M, D)`.
pub fn date_to_typst_call(func: &str, date: &str) -> (r: Option<String>)
    ensures
        match r {
            Some(t) => date_call_spec(func@, date@) == Some(t@),
            None => date_call_spec(func@, date@) is None,
        },
{
    let parts = split_dash(&chars_of(date));
    let ghost p = dash_pieces(date@);
    if parts.len() < 3 {
        return None;
    }
    assert(parts@[0]@ == p[0] && parts@[1]@ == p[1] && parts@[2]@ == p[2]);
    let y = strip_zeros_of(&parts[0]);
    let m = strip_zeros_of(&parts[1]);
    let d = strip_zeros_of(&parts[2]);
    let mut r = String::new();
    push_str(&mut r, "#");
    push_str(&mut r, func);
    push_str(&mut r, "(");
    push_chars(&mut r, &y);
    push_str(&mut r, ", ");
    push_chars(&mut r, &m);
    push_str(&mut r, ", ");
    push_chars(&mut r, &d);
    push_str(&mut r, ")");
    Some(r)
}

/// The Typst form of a rank: an alias for 100, 50 and 10, else
/// `#rank(N)`.
pub open spec fn rank_text(rank: i64) -> Seq<char> {
    if rank == 100 {
        "#high"@
    } else if rank == 50 {
        "#medium"@
    } else if rank == 10 {
        "#low"@
    } else {
        "#rank("@ + dec_int(rank as int) + ")"@
    }
}

/// Converts a rank to its Typst form.
pub fn rank_to_typst(rank: i64) -> (r: String)
    ensures
        r@ == rank_text(rank),
{
    if rank == 100 {
        "#high".to_string()
    } else if rank == 50 {
        "#medium".to_string()
    } else if rank == 10 {
        "#low".to_string()
    } else {
        let mut r = String::new();
        push_str(&mut r, "#rank(");
        push_i64(&mut r, rank);
        push_str(&mut r, ")");
        r
    }
}

/// The pieces of a task's Typst list item, in order.
pub open spec fn typst_parts(t: TaskViewV) -> Seq<Seq<char>> {
    seq!["- "@ + (if t.is_done { "[x]"@ } else { "[ ]"@ }) + " "@ + t.title] + (match t.due {
        Some(d) => match date_call_spec("due"@, d) {
            Some(c) => seq![c],
            None => Seq::empty(),
        },
        None => Seq::empty(),
    }) + (match t.start {
        Some(d) => match date_call_spec("start"@, d) {
            Some(c) => seq![c],
            None => Seq::empty(),
        },
        None => Seq::empty(),
    }) + (match t.rank {
        Some(r) => seq![rank_text(r)],
        None => Seq::empty(),
    }) + t.tags.map_values(|g: Seq<char>| "#tag(\""@ + g + "\")"@) + (match t.task_id {
        Some(id) => seq!["#id(\""@ + id + "\")"@],
        None => Seq::empty(),
    })
}

/// Formats a task as a Typst list item with its metadata:
/// `- [ ] Title #due(2026, 5, 15) #start(2026, 3, 1) #high #tag("t") #id("uuid")`.
pub fn format_task_typst(task: &TaskView) -> (r: String)
    ensures
        r@ == join(typst_parts(task@), " "@),
{
    let ghost t = task@;
    let mut parts: Vec<String> = Vec::new();
    let mut first = String::new();
    push_str(&mut first, "- ");
    push_str(&mut first, if task.is_done { "[x]" } else { "[ ]" });
    push_str(&mut first, " ");
    push_str(&mut first, task.title.as_str());
    parts.push(first);
    let ghost p1 = strs(parts@);
    assert(p1 =~= seq!["- "@ + (if t.is_done { "[x]"@ } else { "[ ]"@ }) + " "@ + t.title]);
    if let Some(date) = &task.due {
        if let Some(call) = date_to_typst_call("due", date.as_str()) {
            parts.push(call);
        }
    }
    let ghost p2 = strs(parts@);
    assert(p2 =~= p1 + (match t.due {
        Some(d) => match date_call_spec("due"@, d) {
            Some(c) => seq![c],
            None => Seq::<Seq<char>>::empty(),
        },
        None => Seq::<Seq<char>>::empty(),
    }));
    if let Some(date) = &task.start {
        if let Some(call) = date_to_typst_call("start", date.as_str()) {
            parts.push(call);
        }
    }
    let ghost p3 = strs(parts@);
    assert(p3 =~= p2 + (match t.start {
        Some(d) => match date_call_spec("start"@, d) {
            Some(c) => seq![c],
            None => Seq::<Seq<char>>::empty(),
        },
        None => Seq::<Seq<char>>::empty(),
    }));
    if let Some(r) = task.rank {
        parts.push(rank_to_typst(r));
    }
    let ghost p4 = strs(parts@);
    assert(p4 =~= p3 + (match t.rank {
        Some(r) => seq![rank_text(r)],
        None => Seq::<Seq<char>>::empty(),
    }));
    let n4 = parts.len();
    let mut i: usize = 0;
    while i < task.tags.len()
        invariant
            i <= task.tags.len(),
            t == task@,
            parts.len() == n4 + i,
            p4.len() == n4,
            strs(parts@) == p4 + strs(task.tags@).take(i as int).map_values(
                |g: Seq<char>| "#tag(\""@ + g + "\")"@,
            ),
        decreases task.tags.len() - i,
    {
        let mut c = String::new();
        push_str(&mut c, "#tag(\"");
        push_str(&mut c, task.tags[i].as_str());
        push_str(&mut c, "\")");
        let ghost before = parts@;
        parts.push(c);
        proof {
            let want = p4 + strs(task.tags@).take(i + 1).map_values(
                |g: Seq<char>| "#tag(\""@ + g + "\")"@,
            );
            let prev = p4 + strs(task.tags@).take(i as int).map_values(
                |g: Seq<char>| "#tag(\""@ + g + "\")"@,
            );
            assert(parts@ == before.push(c));
            assert(strs(task.tags@)[i as int] == task.tags@[i as int]@);
            let got = strs(parts@);
            assert forall|k: int| 0 <= k < got.len() implies got[k] == want[k] by {
                if k < before.len() {
                    assert(parts@[k] == before[k]);
                    assert(strs(before)[k] == prev[k]);
                    if k >= p4.len() {
                        assert(want[k] == prev[k]);
                    } else {
                        assert(want[k] == p4[k]);
                    }
                }
            }
            assert(got =~= want);
        }
        i = i + 1;
    }
    assert(strs(task.tags@).take(task.tags.len() as int) =~= t.tags);
    let ghost p5 = strs(parts@);
    if let Some(id) = &task.task_id {
        let mut c = String::new();
        push_str(&mut c, "#id(\"");
        push_str(&mut c, id.as_str());
        push_str(&mut c, "\")");
        parts.push(c);
    }
    assert(strs(parts@) =~= p5 + (match t.task_id {
        Some(id) => seq!["#id(\""@ + id + "\")"@],
        None => Seq::<Seq<char>>::empty(),
    }));
    assert(strs(parts@) =~= typst_parts(t));
    join_strings(&parts, " ")
}


// ---------------------------------------------------------------------------
// CSV
// ---------------------------------------------------------------------------

/// The plain form of a table of strings.
pub open spec fn rows_view(rows: Seq<Vec<String>>) -> Seq<Seq<Seq<char>>> {
    rows.map_values(|r: Vec<String>| strs(r@))
}

/// Every record has as many fields as the first.
pub open spec fn same_lengths(rows: Seq<Seq<Seq<char>>>) -> bool {
    forall|i: int| 0 <= i < rows.len() ==> #[trigger] rows[i].len() == rows[0].len()
}

/// The CSV text that `csv::Writer` (default settings) writes for these
/// records.
pub uninterp spec fn csv_text(rows: Seq<Seq<Seq<char>>>) -> Seq<char>;

/// Writes records with a default `csv::Writer` into memory and returns the
/// text.  Trusted: a text returned is the named `csv_text` of the records;
/// writing into memory does not fail, and the writer's only other failure
/// is a record whose length differs from the first's, so records all of
/// one length give a text (the fields are valid UTF-8, and so is what the
/// writer adds).  A failure gives the error's message.
#[verifier::external_body]
pub(crate) fn write_csv(rows: &Vec<Vec<String>>) -> (r: Result<String, String>)
    ensures
        r matches Ok(t) ==> t@ == csv_text(rows_view(rows@)),
        same_lengths(rows_view(rows@)) ==> r is Ok,
{
    let mut wtr = csv::Writer::from_writer(vec![]);
    for row in rows {
        if let Err(e) = wtr.write_record(row) {
            return Err(e.to_string());
        }
    }
    match wtr.into_inner() {
        Ok(bytes) => String::from_utf8(bytes).map_err(|e| e.to_string()),
        Err(e) => Err(e.to_string()),
    }
}

fn push_cell(row: &mut Vec<String>, cell: String)
    ensures
        strs(final(row)@) == strs(old(row)@).push(cell@),
{
    let ghost before = row@;
    row.push(cell);
    proof {
        assert(row@ == before.push(cell));
        assert(strs(row@) =~= strs(before).push(cell@));
    }
}

/// The optional text, or the empty text.
pub open spec fn or_empty(s: Option<Seq<char>>) -> Seq<char> {
    match s {
        Some(x) => x,
        None => Seq::empty(),
    }
}

/// The CSV record of a task.
pub open spec fn task_csv_row(t: TaskViewV) -> Seq<Seq<char>> {
    seq![
        if t.is_done { "done"@ } else { "pending"@ },
        or_empty(t.due),
        or_empty(t.start),
        match t.rank {
            Some(r) => dec_int(r as int),
            None => Seq::empty(),
        },
        t.title,
        t.file_path,
        join(t.tags, ";"@),
    ]
}

/// The CSV records of tasks: a header, then one record per task.
pub open spec fn tasks_csv_spec(tasks: Seq<TaskView>) -> Seq<Seq<Seq<char>>> {
    seq![seq!["status"@, "due"@, "start"@, "rank"@, "title"@, "file"@, "tags"@]] + tasks.map_values(
        |t: TaskView| task_csv_row(t@),
    )
}

fn opt_text(s: &Option<String>) -> (r: String)
    ensures
        r@ == or_empty(opt_view(s)),
{
    match s {
        Some(x) => copy_string(x),
        None => String::new(),
    }
}

/// Appends a record to a table of records.
fn push_row(rows: &mut Vec<Vec<String>>, row: Vec<String>)
    ensures
        rows_view(final(rows)@) == rows_view(old(rows)@).push(strs(row@)),
{
    let ghost before = rows@;
    rows.push(row);
    proof {
        assert(rows@ == before.push(row));
        assert(rows_view(rows@) =~= rows_view(before).push(strs(row@)));
    }
}

/// The CSV records of tasks.
pub fn tasks_csv_rows(tasks: &Vec<TaskView>) -> (r: Vec<Vec<String>>)
    ensures
        rows_view(r@) == tasks_csv_spec(tasks@),
{
    let mut rows: Vec<Vec<String>> = Vec::new();
    let mut header: Vec<String> = Vec::new();
    push_cell(&mut header, "status".to_string());
    push_cell(&mut header, "due".to_string());
    push_cell(&mut header, "start".to_string());
    push_cell(&mut header, "rank".to_string());
    push_cell(&mut header, "title".to_string());
    push_cell(&mut header, "file".to_string());
    push_cell(&mut header, "tags".to_string());
    push_row(&mut rows, header);
    let ghost head = rows_view(rows@);
    assert(head =~~= seq![seq!["status"@, "due"@, "start"@, "rank"@, "title"@, "file"@, "tags"@]]);
    let mut i: usize = 0;
    while i < tasks.len()
        invariant
            i <= tasks.len(),
            head.len() == 1,
            head == seq![seq!["status"@, "due"@, "start"@, "rank"@, "title"@, "file"@, "tags"@]],
            rows_view(rows@) == head + tasks@.take(i as int).map_values(|t: TaskView| task_csv_row(t@)),
        decreases tasks.len() - i,
    {
        let t = &tasks[i];
        let mut row: Vec<String> = Vec::new();
        push_cell(&mut row, if t.is_done { "done".to_string() } else { "pending".to_string() });
        push_cell(&mut row, opt_text(&t.due));
        push_cell(&mut row, opt_text(&t.start));
        let mut rank = String::new();
        if let Some(x) = t.rank {
            push_i64(&mut rank, x);
        }
        push_cell(&mut row, rank);
        push_cell(&mut row, copy_string(&t.title));
        push_cell(&mut row, copy_string(&t.file_path));
        push_cell(&mut row, join_strings(&t.tags, ";"));
        assert(strs(row@) =~= task_csv_row(t@));
        let ghost before = rows_view(rows@);
        push_row(&mut rows, row);
        proof {
            let want = head + tasks@.take(i + 1).map_values(|t: TaskView| task_csv_row(t@));
            assert(rows_view(rows@) =~= want);
        }
        i = i + 1;
    }
    assert(tasks@.take(tasks.len() as int) =~= tasks@);
    rows
}

/// Formats tasks as CSV.
pub fn format_tasks_csv(tasks: &Vec<TaskView>) -> (r: Result<String, String>)
    ensures
        r matches Ok(t) && t@ == csv_text(tasks_csv_spec(tasks@)),
{
    let rows = tasks_csv_rows(tasks);
    assert(same_lengths(tasks_csv_spec(tasks@))) by {
        let s = tasks_csv_spec(tasks@);
        assert forall|i: int| 0 <= i < s.len() implies #[trigger] s[i].len() == s[0].len() by {
            if i > 0 {
                assert(s[i] == task_csv_row(tasks@[i - 1]@));
            }
        }
    }
    write_csv(&rows)
}

/// The CSV record of a file.
pub open spec fn file_csv_row(f: FileView) -> Seq<Seq<char>> {
    seq![f.file_path@, or_empty(opt_view(&f.title)), dec_int(f.task_count as int), f.updated_at@]
}

/// The CSV records of files: a header, then one record per file.
pub open spec fn files_csv_spec(files: Seq<FileView>) -> Seq<Seq<Seq<char>>> {
    seq![seq!["path"@, "title"@, "tasks"@, "updated_at"@]] + files.map_values(
        |f: FileView| file_csv_row(f),
    )
}

/// The CSV records of files.
pub fn files_csv_rows(files: &Vec<FileView>) -> (r: Vec<Vec<String>>)
    ensures
        rows_view(r@) == files_csv_spec(files@),
{
    let mut rows: Vec<Vec<String>> = Vec::new();
    let mut header: Vec<String> = Vec::new();
    push_cell(&mut header, "path".to_string());
    push_cell(&mut header, "title".to_string());
    push_cell(&mut header, "tasks".to_string());
    push_cell(&mut header, "updated_at".to_string());
    push_row(&mut rows, header);
    let ghost head = rows_view(rows@);
    assert(head =~~= seq![seq!["path"@, "title"@, "tasks"@, "updated_at"@]]);
    let mut i: usize = 0;
    while i < files.len()
        invariant
            i <= files.len(),
            head.len() == 1,
            head == seq![seq!["path"@, "title"@, "tasks"@, "updated_at"@]],
            rows_view(rows@) == head + files@.take(i as int).map_values(|f: FileView| file_csv_row(f)),
        decreases files.len() - i,
    {
        let f = &files[i];
        let mut row: Vec<String> = Vec::new();
        push_cell(&mut row, copy_string(&f.file_path));
        push_cell(&mut row, opt_text(&f.title));
        let mut n = String::new();
        push_i64(&mut n, f.task_count);
        push_cell(&mut row, n);
        push_cell(&mut row, copy_string(&f.updated_at));
        assert(strs(row@) =~= file_csv_row(*f));
        push_row(&mut rows, row);
        assert(rows_view(rows@) =~= head + files@.take(i + 1).map_values(|f: FileView| file_csv_row(f)));
        i = i + 1;
    }
    assert(files@.take(files.len() as int) =~= files@);
    rows
}

/// Formats files as CSV.
pub fn format_files_csv(files: &Vec<FileView>) -> (r: Result<String, String>)
    ensures
        r matches Ok(t) && t@ == csv_text(files_csv_spec(files@)),
{
    let rows = files_csv_rows(files);
    assert(same_lengths(files_csv_spec(files@))) by {
        let s = files_csv_spec(files@);
        assert forall|i: int| 0 <= i < s.len() implies #[trigger] s[i].len() == s[0].len() by {
            if i > 0 {
                assert(s[i] == file_csv_row(files@[i - 1]));
            }
        }
    }
    write_csv(&rows)
}

/// The CSV records of the index statistics: one `metric,value` record
/// per figure, the update time last if there is one.
pub open spec fn stats_csv_spec(s: IndexStats) -> Seq<Seq<Seq<char>>> {
    seq![
        seq!["metric"@, "value"@],
        seq!["files"@, dec_int(s.file_count as int)],
        seq!["tasks"@, dec_int(s.task_count as int)],
        seq!["done"@, dec_int(s.done_count as int)],
        seq!["pending"@, dec_int(s.pending_count as int)],
    ] + match opt_view(&s.last_updated) {
        Some(ts) => seq![seq!["last_updated"@, ts]],
        None => Seq::empty(),
    }
}

fn metric_row(name: &str, v: i64) -> (r: Vec<String>)
    ensures
        strs(r@) == seq![name@, dec_int(v as int)],
{
    let mut n = String::new();
    push_i64(&mut n, v);
    let mut r: Vec<String> = Vec::new();
    push_cell(&mut r, name.to_string());
    push_cell(&mut r, n);
    assert(strs(r@) =~= seq![name@, dec_int(v as int)]);
    r
}

/// The CSV records of the index statistics.
pub fn stats_csv_rows(stats: &IndexStats) -> (r: Vec<Vec<String>>)
    ensures
        rows_view(r@) == stats_csv_spec(*stats),
{
    let mut rows: Vec<Vec<String>> = Vec::new();
    let mut header: Vec<String> = Vec::new();
    push_cell(&mut header, "metric".to_string());
    push_cell(&mut header, "value".to_string());
    push_row(&mut rows, header);
    push_row(&mut rows, metric_row("files", stats.file_count));
    push_row(&mut rows, metric_row("tasks", stats.task_count));
    push_row(&mut rows, metric_row("done", stats.done_count));
    push_row(&mut rows, metric_row("pending", stats.pending_count));
    if let Some(ts) = &stats.last_updated {
        let mut r: Vec<String> = Vec::new();
        push_cell(&mut r, "last_updated".to_string());
        push_cell(&mut r, copy_string(ts));
        assert(strs(r@) =~= seq!["last_updated"@, ts@]);
        push_row(&mut rows, r);
    }
    assert(rows_view(rows@) =~~= stats_csv_spec(*stats));
    rows
}

/// Formats the index statistics as CSV.
pub fn format_stats_csv(stats: &IndexStats) -> (r: Result<String, String>)
    ensures
        r matches Ok(t) && t@ == csv_text(stats_csv_spec(*stats)),
{
    let rows = stats_csv_rows(stats);
    assert(same_lengths(stats_csv_spec(*stats)));
    write_csv(&rows)
}


/// Each piece of `c` preceded by `sep`, one after the other.
pub open spec fn sep_each(c: Seq<Seq<char>>, sep: Seq<char>) -> Seq<char>
    decreases c.len(),
{
    if c.len() == 0 {
        Seq::empty()
    } else {
        sep_each(c.drop_last(), sep) + sep + c.last()
    }
}

proof fn lemma_join_append(a: Seq<Seq<char>>, c: Seq<Seq<char>>, sep: Seq<char>)
    requires
        a.len() > 0,
    ensures
        join(a + c, sep) == join(a, sep) + sep_each(c, sep),
    decreases c.len(),
{
    if c.len() == 0 {
        assert(a + c =~= a);
    } else {
        lemma_join_append(a, c.drop_last(), sep);
        assert((a + c).drop_last() =~= a + c.drop_last());
        assert((a + c).last() == c.last());
    }
}

proof fn lemma_sep_each_append(c: Seq<Seq<char>>, d: Seq<Seq<char>>, sep: Seq<char>)
    ensures
        sep_each(c + d, sep) == sep_each(c, sep) + sep_each(d, sep),
    decreases d.len(),
{
    if d.len() == 0 {
        assert(c + d =~= c);
    } else {
        lemma_sep_each_append(c, d.drop_last(), sep);
        assert((c + d).drop_last() =~= c + d.drop_last());
        assert((c + d).last() == d.last());
    }
}

/// The Typst calls of tags, each preceded by a space: ` #tag("g")` for
/// every tag `g`, in order.
pub open spec fn tag_calls(tags: Seq<Seq<char>>) -> Seq<char>
    decreases tags.len(),
{
    if tags.len() == 0 {
        Seq::empty()
    } else {
        tag_calls(tags.drop_last()) + " #tag(\""@ + tags.last() + "\")"@
    }
}

proof fn lemma_tag_calls(tags: Seq<Seq<char>>)
    ensures
        sep_each(tags.map_values(|g: Seq<char>| "#tag(\""@ + g + "\")"@), " "@) == tag_calls(tags),
    decreases tags.len(),
{
    if tags.len() > 0 {
        lemma_tag_calls(tags.drop_last());
        let m = tags.map_values(|g: Seq<char>| "#tag(\""@ + g + "\")"@);
        assert(m.drop_last() =~= tags.drop_last().map_values(|g: Seq<char>| "#tag(\""@ + g + "\")"@));
        reveal_strlit(" ");
        reveal_strlit("#tag(\"");
        reveal_strlit(" #tag(\"");
        assert(m.last() == "#tag(\""@ + tags.last() + "\")"@);
        assert(" "@ + "#tag(\""@ =~= " #tag(\""@);
        assert(sep_each(m, " "@) =~= tag_calls(tags));
    }
}

/// A task's Typst line holds a `#tag("g")` call for each of its tags, in
/// order, one after the other, each after a space.
pub proof fn law_typst_line_tags(t: TaskViewV)
    ensures
        exists|pre: Seq<char>, post: Seq<char>| #[trigger] join(typst_parts(t), " "@) == pre + tag_calls(t.tags) + post,
{
    let parts = typst_parts(t);
    let first = seq!["- "@ + (if t.is_done { "[x]"@ } else { "[ ]"@ }) + " "@ + t.title] + (match t.due {
        Some(d) => match date_call_spec("due"@, d) {
            Some(c) => seq![c],
            None => Seq::empty(),
        },
        None => Seq::empty(),
    }) + (match t.start {
        Some(d) => match date_call_spec("start"@, d) {
            Some(c) => seq![c],
            None => Seq::empty(),
        },
        None => Seq::empty(),
    }) + (match t.rank {
        Some(r) => seq![rank_text(r)],
        None => Seq::empty(),
    });
    let calls = t.tags.map_values(|g: Seq<char>| "#tag(\""@ + g + "\")"@);
    let last = match t.task_id {
        Some(id) => seq!["#id(\""@ + id + "\")"@],
        None => Seq::<Seq<char>>::empty(),
    };
    assert(parts =~= first + (calls + last));
    lemma_join_append(first, calls + last, " "@);
    lemma_sep_each_append(calls, last, " "@);
    lemma_tag_calls(t.tags);
    let pre = join(first, " "@);
    let post = sep_each(last, " "@);
    assert(join(parts, " "@) == pre + tag_calls(t.tags) + post);
}

}
