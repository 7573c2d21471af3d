//! `search`: tasks and bindings that match a keyword, as text and CSV.

use vstd::prelude::*;
use crate::cli::format::{format_task_view, task_view_line};
use crate::cli::QueryOpts;
use crate::index::TaskView;
use crate::text::{chars_of, dec_nat, opt_view, push_char, push_str, push_usize, str_eq, strs};

verus! {

broadcast use vstd::string::group_string_axioms;

/// Arguments of `search`.
#[derive(Debug, Clone, PartialEq)]
pub struct SearchArgs {
    /// Search keyword.
    pub keyword: String,
    /// Limit output to N items.
    pub limit: Option<usize>,
    pub query: QueryOpts,
}

/// A binding that matched: its name, value and file.
#[derive(Debug, Clone, PartialEq)]
pub struct BindingMatch {
    pub name: String,
    pub value: String,
    pub file_path: String,
}

/// What a search found.
#[derive(Debug, Clone, PartialEq)]
pub struct SearchResults {
    pub tasks: Vec<TaskView>,
    pub bindings: Vec<BindingMatch>,
}

/// The line of a task of the index.
pub open spec fn index_task_line(t: TaskView) -> Seq<char> {
    task_view_line(t.is_done, opt_view(&t.due), t.title@, strs(t.tags@))
}

/// The task lines of results: a file line whenever the file changes, then
/// each task indented.  Gives the text and the last file shown.
pub open spec fn task_block(ts: Seq<TaskView>) -> (Seq<char>, Seq<char>)
    decreases ts.len(),
{
    if ts.len() == 0 {
        (Seq::empty(), Seq::empty())
    } else {
        let (o, cur) = task_block(ts.drop_last());
        let t = ts.last();
        let o1 = if t.file_path@ != cur {
            o + "  "@ + t.file_path@ + "\n"@
        } else {
            o
        };
        (o1 + "    "@ + index_task_line(t) + "\n"@, t.file_path@)
    }
}

/// The binding lines of results.
pub open spec fn binding_block(bs: Seq<BindingMatch>) -> Seq<char>
    decreases bs.len(),
{
    if bs.len() == 0 {
        Seq::empty()
    } else {
        let b = bs.last();
        binding_block(bs.drop_last()) + "  "@ + b.name@ + " = "@ + b.value@ + "  ("@ + b.file_path@
            + ")\n"@
    }
}

/// The text of search results: tasks grouped by file, then bindings, or
/// `no matches found`.
pub open spec fn search_text(r: &SearchResults) -> Seq<char> {
    let nt = r.tasks.len();
    let nb = r.bindings.len();
    (if nt > 0 {
        "Tasks ("@ + dec_nat(nt as nat) + "):\n"@ + task_block(r.tasks@).0
    } else {
        Seq::empty()
    }) + (if nb > 0 {
        (if nt > 0 { "\n"@ } else { Seq::empty() }) + "Bindings ("@ + dec_nat(nb as nat) + "):\n"@
            + binding_block(r.bindings@)
    } else {
        Seq::empty()
    }) + (if nt == 0 && nb == 0 {
        "no matches found\n"@
    } else {
        Seq::empty()
    })
}

/// Formats search results for people to read.
pub fn format_search_results(results: &SearchResults) -> (r: String)
    ensures
        r@ == search_text(results),
{
    let mut out = String::new();
    if results.tasks.len() > 0 {
        push_str(&mut out, "Tasks (");
        push_usize(&mut out, results.tasks.len());
        push_str(&mut out, "):\n");
        let ghost start = out@;
        let mut current = String::new();
        let mut i: usize = 0;
        while i < results.tasks.len()
            invariant
                i <= results.tasks.len(),
                ({
                    let (o, cur) = task_block(results.tasks@.take(i as int));
                    out@ == start + o && current@ == cur
                }),
            decreases results.tasks.len() - i,
        {
            let t = &results.tasks[i];
            proof {
                assert(results.tasks@.take(i + 1).drop_last() =~= results.tasks@.take(i as int));
                assert(results.tasks@.take(i + 1).last() == *t);
            }
            if !str_eq(t.file_path.as_str(), current.as_str()) {
                push_str(&mut out, "  ");
                push_str(&mut out, t.file_path.as_str());
                push_str(&mut out, "\n");
                current = crate::text::copy_string(&t.file_path);
            }
            push_str(&mut out, "    ");
            let line = format_task_view(t);
            push_str(&mut out, line.as_str());
            push_str(&mut out, "\n");
            i = i + 1;
        }
        assert(results.tasks@.take(results.tasks.len() as int) =~= results.tasks@);
    }
    let ghost mid = out@;
    if results.bindings.len() > 0 {
        if results.tasks.len() > 0 {
            push_str(&mut out, "\n");
        }
        push_str(&mut out, "Bindings (");
        push_usize(&mut out, results.bindings.len());
        push_str(&mut out, "):\n");
        let ghost start = out@;
        let mut i: usize = 0;
        while i < results.bindings.len()
            invariant
                i <= results.bindings.len(),
                out@ == start + binding_block(results.bindings@.take(i as int)),
            decreases results.bindings.len() - i,
        {
            let b = &results.bindings[i];
            proof {
                assert(results.bindings@.take(i + 1).drop_last() =~= results.bindings@.take(i as int));
                assert(results.bindings@.take(i + 1).last() == *b);
            }
            push_str(&mut out, "  ");
            push_str(&mut out, b.name.as_str());
            push_str(&mut out, " = ");
            push_str(&mut out, b.value.as_str());
            push_str(&mut out, "  (");
            push_str(&mut out, b.file_path.as_str());
            push_str(&mut out, ")\n");
            i = i + 1;
        }
        assert(results.bindings@.take(results.bindings.len() as int) =~= results.bindings@);
    }
    if results.tasks.len() == 0 && results.bindings.len() == 0 {
        push_str(&mut out, "no matches found\n");
    }
    assert(out@ =~= search_text(results));
    out
}

/// A CSV field needs quoting: it holds a comma, a quote or a line break.
pub open spec fn needs_quotes(s: Seq<char>) -> bool {
    exists|i: int| 0 <= i < s.len() && (s[i] == ',' || s[i] == '"' || s[i] == '\n' || s[i] == '\r')
}

/// `s` with every `"` doubled.
pub open spec fn double_quotes(s: Seq<char>) -> Seq<char>
    decreases s.len(),
{
    if s.len() == 0 {
        Seq::empty()
    } else {
        double_quotes(s.drop_last()) + if s.last() == '"' {
            seq!['"', '"']
        } else {
            seq![s.last()]
        }
    }
}

/// A CSV field: quoted, with inner quotes doubled, when it needs quoting.
pub open spec fn csv_field(s: Seq<char>) -> Seq<char> {
    if needs_quotes(s) {
        seq!['"'] + double_quotes(s) + seq!['"']
    } else {
        s
    }
}

/// Escapes a CSV field.
pub fn csv_escape(s: &str) -> (r: String)
    ensures
        r@ == csv_field(s@),
{
    let v = chars_of(s);
    let mut needs = false;
    let mut doubled = String::new();
    let mut i: usize = 0;
    while i < v.len()
        invariant
            i <= v.len(),
            v@ == s@,
            doubled@ == double_quotes(v@.take(i as int)),
            needs == exists|j: int|
                0 <= j < i && (v@[j] == ',' || v@[j] == '"' || v@[j] == '\n' || v@[j] == '\r'),
        decreases v.len() - i,
    {
        let c = v[i];
        proof {
            assert(v@.take(i + 1).drop_last() =~= v@.take(i as int));
            assert(v@.take(i + 1).last() == c);
        }
        if c == ',' || c == '"' || c == '\n' || c == '\r' {
            needs = true;
        }
        if c == '"' {
            push_char(&mut doubled, '"');
            push_char(&mut doubled, '"');
        } else {
            push_char(&mut doubled, c);
        }
        assert(doubled@ =~= double_quotes(v@.take(i + 1)));
        i = i + 1;
    }
    assert(v@.take(v.len() as int) =~= v@);
    if needs {
        let mut r = String::new();
        push_char(&mut r, '"');
        push_str(&mut r, doubled.as_str());
        push_char(&mut r, '"');
        r
    } else {
        s.to_string()
    }
}

/// The CSV text of search results: a header, then one record per task
/// and per binding.
pub open spec fn search_csv_text(r: &SearchResults) -> Seq<char> {
    "type,name,value,file\n"@ + task_records(r.tasks@) + binding_records(r.bindings@)
}

/// The CSV records of tasks.
pub open spec fn task_records(ts: Seq<TaskView>) -> Seq<char>
    decreases ts.len(),
{
    if ts.len() == 0 {
        Seq::empty()
    } else {
        let t = ts.last();
        task_records(ts.drop_last()) + "task,"@ + csv_field(t.title@) + ","@ + (if t.is_done {
            "done"@
        } else {
            "pending"@
        }) + ","@ + csv_field(t.file_path@) + "\n"@
    }
}

/// The CSV records of bindings.
pub open spec fn binding_records(bs: Seq<BindingMatch>) -> Seq<char>
    decreases bs.len(),
{
    if bs.len() == 0 {
        Seq::empty()
    } else {
        let b = bs.last();
        binding_records(bs.drop_last()) + "binding,"@ + csv_field(b.name@) + ","@ + csv_field(b.value@)
            + ","@ + csv_field(b.file_path@) + "\n"@
    }
}

/// Formats search results as CSV.
pub fn format_search_csv(results: &SearchResults) -> (r: String)
    ensures
        r@ == search_csv_text(results),
{
    let mut out = String::new();
    push_str(&mut out, "type,name,value,file\n");
    let ghost start = out@;
    let mut i: usize = 0;
    while i < results.tasks.len()
        invariant
            i <= results.tasks.len(),
            out@ == start + task_records(results.tasks@.take(i as int)),
        decreases results.tasks.len() - i,
    {
        let t = &results.tasks[i];
        proof {
            assert(results.tasks@.take(i + 1).drop_last() =~= results.tasks@.take(i as int));
            assert(results.tasks@.take(i + 1).last() == *t);
        }
        push_str(&mut out, "task,");
        let a = csv_escape(t.title.as_str());
        push_str(&mut out, a.as_str());
        push_str(&mut out, ",");
        push_str(&mut out, if t.is_done { "done" } else { "pending" });
        push_str(&mut out, ",");
        let b = csv_escape(t.file_path.as_str());
        push_str(&mut out, b.as_str());
        push_str(&mut out, "\n");
        i = i + 1;
    }
    assert(results.tasks@.take(results.tasks.len() as int) =~= results.tasks@);
    let ghost mid = out@;
    let mut j: usize = 0;
    while j < results.bindings.len()
        invariant
            j <= results.bindings.len(),
            out@ == mid + binding_records(results.bindings@.take(j as int)),
        decreases results.bindings.len() - j,
    {
        let b = &results.bindings[j];
        proof {
            assert(results.bindings@.take(j + 1).drop_last() =~= results.bindings@.take(j as int));
            assert(results.bindings@.take(j + 1).last() == *b);
        }
        push_str(&mut out, "binding,");
        let x = csv_escape(b.name.as_str());
        push_str(&mut out, x.as_str());
        push_str(&mut out, ",");
        let y = csv_escape(b.value.as_str());
        push_str(&mut out, y.as_str());
        push_str(&mut out, ",");
        let z = csv_escape(b.file_path.as_str());
        push_str(&mut out, z.as_str());
        push_str(&mut out, "\n");
        j = j + 1;
    }
    assert(results.bindings@.take(results.bindings.len() as int) =~= results.bindings@);
    assert(out@ =~= search_csv_text(results));
    out
}

}
