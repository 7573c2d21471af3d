//! `inspect`: the index's statistics, files, dependencies and errors, as
//! tables, Typst or CSV.

use vstd::prelude::*;
use crate::cli::commands::deps::{
    all_deps_csv_spec, deps_csv_spec, deps_text, format_all_deps_csv, format_deps, format_deps_csv,
};
use crate::cli::format::{
    csv_text, files_csv_spec, format_files_csv, format_stats, format_stats_csv, or_empty, rows_view,
    same_lengths, stats_csv_spec, stats_text, write_csv,
};
use crate::cli::util::{shorten_home, shorten_home_spec};
use crate::cli::QueryOpts;
use crate::store::{FileDependencies, FileError, FileView, IndexStats};
use crate::text::{dec_int, dec_nat, opt_view, push_i64, push_str, push_usize, strs};

verus! {

broadcast use vstd::string::group_string_axioms;

/// Which section(s) to display.
#[derive(Debug, Clone, Copy, PartialEq, Eq, Structural)]
pub enum Section {
    Status,
    Files,
    Deps,
    Errors,
}

/// Arguments of `inspect`.
#[derive(Debug, Clone, PartialEq)]
pub struct InspectArgs {
    /// Sections to display (none: all).
    pub with: Vec<Section>,
    /// Show dependencies of one file.
    pub file: Option<String>,
    pub query: QueryOpts,
}

impl InspectArgs {
    /// Whether a section is shown: every section when none is named.
    pub fn wants(&self, section: Section) -> (r: bool)
        ensures
            r == (self.with.len() == 0 || self.with@.contains(section)),
    {
        if self.with.len() == 0 {
            return true;
        }
        let mut i: usize = 0;
        while i < self.with.len()
            invariant
                i <= self.with.len(),
                forall|j: int| 0 <= j < i ==> self.with@[j] != section,
            decreases self.with.len() - i,
        {
            if self.with[i] == section {
                assert(self.with@[i as int] == section);
                return true;
            }
            i = i + 1;
        }
        false
    }
}

/// The dependencies shown: of one file, or of all files.
#[derive(Debug, Clone, PartialEq)]
pub enum DepsOutput {
    Single(FileDependencies),
    All(Vec<FileDependencies>),
}

/// How sections are rendered.
#[derive(Debug, Clone, Copy, PartialEq, Eq, Structural)]
pub enum SectionFmt {
    Table,
    Typst,
    Csv,
}

// ---------------------------------------------------------------------------
// Tables
// ---------------------------------------------------------------------------

/// The text of a `comfy_table` table with the `ASCII_BORDERS_ONLY_CONDENSED`
/// preset, a header, and rows.
pub uninterp spec fn table_text(header: Seq<Seq<char>>, rows: Seq<Seq<Seq<char>>>) -> Seq<char>;

/// Renders a table with `comfy_table`.  Trusted: the text is the named
/// `table_text`.
#[verifier::external_body]
fn render_table(header: &Vec<String>, rows: &Vec<Vec<String>>) -> (r: String)
    ensures
        r@ == table_text(strs(header@), rows_view(rows@)),
{
    let mut table = comfy_table::Table::new();
    table.load_preset(comfy_table::presets::ASCII_BORDERS_ONLY_CONDENSED);
    table.set_header(header.clone());
    for row in rows {
        table.add_row(row.clone());
    }
    table.to_string()
}

fn cells2(a: String, b: String) -> (r: Vec<String>)
    ensures
        strs(r@) == seq![a@, b@],
{
    let mut r: Vec<String> = Vec::new();
    r.push(a);
    r.push(b);
    assert(strs(r@) =~= seq![a@, b@]);
    r
}

fn cells3(a: String, b: String, c: String) -> (r: Vec<String>)
    ensures
        strs(r@) == seq![a@, b@, c@],
{
    let mut r: Vec<String> = Vec::new();
    r.push(a);
    r.push(b);
    r.push(c);
    assert(strs(r@) =~= seq![a@, b@, c@]);
    r
}

fn cells4(a: String, b: String, c: String, d: String) -> (r: Vec<String>)
    ensures
        strs(r@) == seq![a@, b@, c@, d@],
{
    let mut r: Vec<String> = Vec::new();
    r.push(a);
    r.push(b);
    r.push(c);
    r.push(d);
    assert(strs(r@) =~= seq![a@, b@, c@, d@]);
    r
}

fn push_row(rows: &mut Vec<Vec<String>>, row: Vec<String>)
    ensures
        rows_view(final(rows)@) == rows_view(old(rows)@).push(strs(row@)),
{
    let ghost before = rows@;
    rows.push(row);
    proof {
        assert(rows@ == before.push(row));
        assert(rows_view(rows@) =~= rows_view(before).push(strs(row@)));
    }
}

/// The table rows of files: shortened path, task count, title.
pub open spec fn files_rows(files: Seq<FileView>, home: Seq<char>) -> Seq<Seq<Seq<char>>> {
    files.map_values(
        |f: FileView|
            seq![
                shorten_home_spec(f.file_path@, home),
                dec_int(f.task_count as int),
                or_empty(opt_view(&f.title)),
            ],
    )
}

/// The table of indexed files.
pub fn build_files_table(files: &Vec<FileView>, home: &str) -> (r: String)
    ensures
        r@ == table_text(seq!["Path"@, "Tasks"@, "Title"@], files_rows(files@, home@)),
{
    let header = cells3("Path".to_string(), "Tasks".to_string(), "Title".to_string());
    let mut rows: Vec<Vec<String>> = Vec::new();
    let mut i: usize = 0;
    while i < files.len()
        invariant
            i <= files.len(),
            rows_view(rows@) == files_rows(files@.take(i as int), home@),
        decreases files.len() - i,
    {
        let f = &files[i];
        let mut count = String::new();
        push_i64(&mut count, f.task_count);
        let title = match &f.title {
            Some(t) => crate::text::copy_string(t),
            None => String::new(),
        };
        push_row(&mut rows, cells3(shorten_home(f.file_path.as_str(), home), count, title));
        assert(rows_view(rows@) =~~= files_rows(files@.take(i + 1), home@));
        i = i + 1;
    }
    assert(files@.take(files.len() as int) =~= files@);
    render_table(&header, &rows)
}

/// The table rows of dependencies: shortened path, title, counts.
pub open spec fn deps_rows(deps: Seq<FileDependencies>, home: Seq<char>) -> Seq<Seq<Seq<char>>> {
    deps.map_values(
        |d: FileDependencies|
            seq![
                shorten_home_spec(d.file_path@, home),
                or_empty(opt_view(&d.file_title)),
                dec_nat(d.imports.len() as nat),
                dec_nat(d.imported_by.len() as nat),
            ],
    )
}

/// The table of all files' dependencies.
pub fn build_deps_table(all_deps: &Vec<FileDependencies>, home: &str) -> (r: String)
    ensures
        r@ == table_text(
            seq!["Path"@, "Title"@, "Imports"@, "Imported by"@],
            deps_rows(all_deps@, home@),
        ),
{
    let header = cells4(
        "Path".to_string(),
        "Title".to_string(),
        "Imports".to_string(),
        "Imported by".to_string(),
    );
    let mut rows: Vec<Vec<String>> = Vec::new();
    let mut i: usize = 0;
    while i < all_deps.len()
        invariant
            i <= all_deps.len(),
            rows_view(rows@) == deps_rows(all_deps@.take(i as int), home@),
        decreases all_deps.len() - i,
    {
        let d = &all_deps[i];
        let title = match &d.file_title {
            Some(t) => crate::text::copy_string(t),
            None => String::new(),
        };
        let mut a = String::new();
        push_usize(&mut a, d.imports.len());
        let mut b = String::new();
        push_usize(&mut b, d.imported_by.len());
        push_row(&mut rows, cells4(shorten_home(d.file_path.as_str(), home), title, a, b));
        assert(rows_view(rows@) =~~= deps_rows(all_deps@.take(i + 1), home@));
        i = i + 1;
    }
    assert(all_deps@.take(all_deps.len() as int) =~= all_deps@);
    render_table(&header, &rows)
}

/// The table rows of file errors: shortened path, error.
pub open spec fn errors_rows(errors: Seq<FileError>, home: Seq<char>) -> Seq<Seq<Seq<char>>> {
    errors.map_values(|e: FileError| seq![shorten_home_spec(e.file_path@, home), e.error@])
}

/// The table of file errors.
pub fn build_errors_table(errors: &Vec<FileError>, home: &str) -> (r: String)
    ensures
        r@ == table_text(seq!["Path"@, "Error"@], errors_rows(errors@, home@)),
{
    let header = cells2("Path".to_string(), "Error".to_string());
    let mut rows: Vec<Vec<String>> = Vec::new();
    let mut i: usize = 0;
    while i < errors.len()
        invariant
            i <= errors.len(),
            rows_view(rows@) == errors_rows(errors@.take(i as int), home@),
        decreases errors.len() - i,
    {
        let e = &errors[i];
        push_row(
            &mut rows,
            cells2(shorten_home(e.file_path.as_str(), home), crate::text::copy_string(&e.error)),
        );
        assert(rows_view(rows@) =~~= errors_rows(errors@.take(i + 1), home@));
        i = i + 1;
    }
    assert(errors@.take(errors.len() as int) =~= errors@);
    render_table(&header, &rows)
}

/// File errors as Typst: each path as code, then the error in a code
/// block.
pub open spec fn errors_typst_text(errors: Seq<FileError>, home: Seq<char>) -> Seq<char>
    decreases errors.len(),
{
    if errors.len() == 0 {
        Seq::empty()
    } else {
        errors_typst_text(errors.drop_last(), home) + "- `"@ + shorten_home_spec(
            errors.last().file_path@,
            home,
        ) + "`\n  ```\n  "@ + errors.last().error@ + "\n  ```\n"@
    }
}

/// Formats file errors as Typst.
pub fn format_errors_typst(errors: &Vec<FileError>, home: &str) -> (r: String)
    ensures
        r@ == errors_typst_text(errors@, home@),
{
    let mut out = String::new();
    let mut i: usize = 0;
    while i < errors.len()
        invariant
            i <= errors.len(),
            out@ == errors_typst_text(errors@.take(i as int), home@),
        decreases errors.len() - i,
    {
        let e = &errors[i];
        proof {
            assert(errors@.take(i + 1).drop_last() =~= errors@.take(i as int));
            assert(errors@.take(i + 1).last() == *e);
        }
        push_str(&mut out, "- `");
        let p = shorten_home(e.file_path.as_str(), home);
        push_str(&mut out, p.as_str());
        push_str(&mut out, "`\n  ```\n  ");
        push_str(&mut out, e.error.as_str());
        push_str(&mut out, "\n  ```\n");
        i = i + 1;
    }
    assert(errors@.take(errors.len() as int) =~= errors@);
    out
}

/// The CSV records of file errors: a header, then path, error and update
/// time per file.
pub open spec fn errors_csv_spec(errors: Seq<FileError>) -> Seq<Seq<Seq<char>>> {
    seq![seq!["path"@, "error"@, "updated_at"@]] + errors.map_values(
        |e: FileError| seq![e.file_path@, e.error@, e.updated_at@],
    )
}

/// Formats file errors as CSV.
pub fn format_file_errors_csv(errors: &Vec<FileError>) -> (r: Result<String, String>)
    ensures
        r matches Ok(t) && t@ == csv_text(errors_csv_spec(errors@)),
{
    let mut rows: Vec<Vec<String>> = Vec::new();
    push_row(&mut rows, cells3("path".to_string(), "error".to_string(), "updated_at".to_string()));
    let ghost head = rows_view(rows@);
    assert(head =~~= seq![seq!["path"@, "error"@, "updated_at"@]]);
    let mut i: usize = 0;
    while i < errors.len()
        invariant
            i <= errors.len(),
            head == seq![seq!["path"@, "error"@, "updated_at"@]],
            rows_view(rows@) == head + errors@.take(i as int).map_values(
                |e: FileError| seq![e.file_path@, e.error@, e.updated_at@],
            ),
        decreases errors.len() - i,
    {
        let e = &errors[i];
        push_row(
            &mut rows,
            cells3(
                crate::text::copy_string(&e.file_path),
                crate::text::copy_string(&e.error),
                crate::text::copy_string(&e.updated_at),
            ),
        );
        assert(rows_view(rows@) =~~= head + errors@.take(i + 1).map_values(
            |e: FileError| seq![e.file_path@, e.error@, e.updated_at@],
        ));
        i = i + 1;
    }
    assert(errors@.take(errors.len() as int) =~= errors@);
    assert(same_lengths(errors_csv_spec(errors@))) by {
        let s = errors_csv_spec(errors@);
        assert forall|i: int| 0 <= i < s.len() implies #[trigger] s[i].len() == s[0].len() by {
            if i > 0 {
                let e = errors@[i - 1];
                assert(s[i] == seq![e.file_path@, e.error@, e.updated_at@]);
            }
        }
    }
    write_csv(&rows)
}

// ---------------------------------------------------------------------------
// Sections
// ---------------------------------------------------------------------------

/// A rendered section: its name and body.
#[derive(Debug, Clone, PartialEq)]
pub struct SectionText {
    pub name: String,
    pub body: String,
}

fn part(name: &str, body: String) -> (r: SectionText)
    ensures
        r.name@ == name@,
        r.body@ == body@,
{
    SectionText { name: name.to_string(), body }
}

fn with_newline(s: String) -> (r: String)
    ensures
        r@ == s@ + "\n"@,
{
    let mut r = s;
    push_str(&mut r, "\n");
    r
}

/// The plain form of rendered sections.
pub open spec fn parts_view(v: Seq<SectionText>) -> Seq<(Seq<char>, Seq<char>)> {
    v.map_values(|p: SectionText| (p.name@, p.body@))
}

fn push_part(parts: &mut Vec<SectionText>, p: SectionText)
    ensures
        parts_view(final(parts)@) == parts_view(old(parts)@).push((p.name@, p.body@)),
{
    let ghost before = parts@;
    parts.push(p);
    proof {
        assert(parts@ == before.push(p));
        assert(parts_view(parts@) =~= parts_view(before).push((p.name@, p.body@)));
    }
}

/// The plain form of a dependencies output: one file's, or all files'.
pub open spec fn deps_body(d: &DepsOutput, home: Seq<char>) -> Seq<char> {
    match d {
        DepsOutput::Single(s) => deps_text(*s, home),
        DepsOutput::All(all) => if all.len() == 0 {
            "no dependencies\n"@
        } else {
            table_text(
                seq!["Path"@, "Title"@, "Imports"@, "Imported by"@],
                deps_rows(all@, home),
            ) + "\n"@
        },
    }
}

/// The human-readable sections, in order: status, files, dependencies,
/// errors (as Typst in the Typst format, else as a table).
pub open spec fn human_parts_spec(
    stats: &Option<IndexStats>,
    files: &Option<Vec<FileView>>,
    deps: &Option<DepsOutput>,
    errors: &Option<Vec<FileError>>,
    fmt: SectionFmt,
    home: Seq<char>,
) -> Seq<(Seq<char>, Seq<char>)> {
    (match stats {
        Some(st) => seq![(
            "Status"@,
            stats_text(
                st.file_count,
                st.task_count,
                st.pending_count,
                st.done_count,
                opt_view(&st.last_updated),
            ) + "\n"@,
        )],
        None => Seq::empty(),
    }) + (match files {
        Some(fi) => seq![(
            "Files"@,
            if fi.len() == 0 {
                "no indexed files\n"@
            } else {
                table_text(seq!["Path"@, "Tasks"@, "Title"@], files_rows(fi@, home)) + "\n"@
            },
        )],
        None => Seq::empty(),
    }) + (match deps {
        Some(d) => seq![("Dependencies"@, deps_body(d, home))],
        None => Seq::empty(),
    }) + (match errors {
        Some(es) => seq![(
            "Errors"@,
            if es.len() == 0 {
                "no errors\n"@
            } else if fmt == SectionFmt::Typst {
                errors_typst_text(es@, home)
            } else {
                table_text(seq!["Path"@, "Error"@], errors_rows(es@, home)) + "\n"@
            },
        )],
        None => Seq::empty(),
    })
}

/// Renders the requested sections for people to read.
pub fn build_human_parts(
    stats: &Option<IndexStats>,
    files: &Option<Vec<FileView>>,
    deps: &Option<DepsOutput>,
    errors: &Option<Vec<FileError>>,
    fmt: SectionFmt,
    home: &str,
) -> (r: Vec<SectionText>)
    ensures
        parts_view(r@) == human_parts_spec(stats, files, deps, errors, fmt, home@),
{
    let mut parts: Vec<SectionText> = Vec::new();
    if let Some(st) = stats {
        push_part(&mut parts, part("Status", with_newline(format_stats(st))));
    }
    let ghost p1 = parts_view(parts@);
    if let Some(fi) = files {
        let body = if fi.len() == 0 {
            "no indexed files\n".to_string()
        } else {
            with_newline(build_files_table(fi, home))
        };
        push_part(&mut parts, part("Files", body));
    }
    let ghost p2 = parts_view(parts@);
    if let Some(d) = deps {
        let body = match d {
            DepsOutput::Single(single) => format_deps(single, home),
            DepsOutput::All(all) => {
                if all.len() == 0 {
                    "no dependencies\n".to_string()
                } else {
                    with_newline(build_deps_table(all, home))
                }
            },
        };
        push_part(&mut parts, part("Dependencies", body));
    }
    let ghost p3 = parts_view(parts@);
    if let Some(es) = errors {
        let body = if es.len() == 0 {
            "no errors\n".to_string()
        } else if fmt == SectionFmt::Typst {
            format_errors_typst(es, home)
        } else {
            with_newline(build_errors_table(es, home))
        };
        push_part(&mut parts, part("Errors", body));
    }
    assert(parts_view(parts@) =~= human_parts_spec(stats, files, deps, errors, fmt, home@));
    parts
}

/// The CSV sections, in order: status, files, dependencies, errors.
pub open spec fn csv_parts_spec(
    stats: &Option<IndexStats>,
    files: &Option<Vec<FileView>>,
    deps: &Option<DepsOutput>,
    errors: &Option<Vec<FileError>>,
) -> Seq<(Seq<char>, Seq<char>)> {
    (match stats {
        Some(st) => seq![("status"@, csv_text(stats_csv_spec(*st)))],
        None => Seq::empty(),
    }) + (match files {
        Some(fi) => seq![("files"@, csv_text(files_csv_spec(fi@)))],
        None => Seq::empty(),
    }) + (match deps {
        Some(DepsOutput::Single(s)) => seq![("deps"@, csv_text(deps_csv_spec(*s)))],
        Some(DepsOutput::All(all)) => seq![("deps"@, csv_text(all_deps_csv_spec(all@)))],
        None => Seq::empty(),
    }) + (match errors {
        Some(es) => seq![("errors"@, csv_text(errors_csv_spec(es@)))],
        None => Seq::empty(),
    })
}

/// Renders the requested sections as CSV; a CSV failure is an error.
pub fn build_csv_parts(
    stats: &Option<IndexStats>,
    files: &Option<Vec<FileView>>,
    deps: &Option<DepsOutput>,
    errors: &Option<Vec<FileError>>,
) -> (r: Result<Vec<SectionText>, String>)
    ensures
        r matches Ok(v) && parts_view(v@) == csv_parts_spec(stats, files, deps, errors),
{
    let mut parts: Vec<SectionText> = Vec::new();
    if let Some(st) = stats {
        push_part(&mut parts, part("status", format_stats_csv(st)?));
    }
    if let Some(fi) = files {
        push_part(&mut parts, part("files", format_files_csv(fi)?));
    }
    if let Some(d) = deps {
        let body = match d {
            DepsOutput::Single(single) => format_deps_csv(single)?,
            DepsOutput::All(all) => format_all_deps_csv(all)?,
        };
        push_part(&mut parts, part("deps", body));
    }
    if let Some(es) = errors {
        push_part(&mut parts, part("errors", format_file_errors_csv(es)?));
    }
    assert(parts_view(parts@) =~= csv_parts_spec(stats, files, deps, errors));
    Ok(parts)
}

/// The header of a section when several are shown.
pub open spec fn section_header(fmt: SectionFmt, multi: bool, name: Seq<char>) -> Seq<char> {
    if !multi {
        Seq::empty()
    } else {
        match fmt {
            SectionFmt::Table => "=== "@ + name + " ===\n"@,
            SectionFmt::Typst => "== "@ + name + "\n"@,
            SectionFmt::Csv => "# section: "@ + name + "\n"@,
        }
    }
}

/// The printed sections: each body after its header (when there are
/// several), with a blank line between sections.
pub open spec fn sections_text(parts: Seq<(Seq<char>, Seq<char>)>, fmt: SectionFmt, multi: bool) -> Seq<
    char,
>
    decreases parts.len(),
{
    if parts.len() == 0 {
        Seq::empty()
    } else {
        sections_text(parts.drop_last(), fmt, multi) + (if parts.len() > 1 {
            "\n"@
        } else {
            Seq::empty()
        }) + section_header(fmt, multi, parts.last().0) + parts.last().1
    }
}

/// The text of the sections as printed.
pub fn print_sections_text(parts: &Vec<SectionText>, fmt: SectionFmt) -> (r: String)
    ensures
        r@ == sections_text(parts_view(parts@), fmt, parts.len() > 1),
{
    let multi = parts.len() > 1;
    let ghost pv = parts_view(parts@);
    let mut out = String::new();
    let mut i: usize = 0;
    while i < parts.len()
        invariant
            i <= parts.len(),
            multi == (parts.len() > 1),
            pv == parts_view(parts@),
            out@ == sections_text(pv.take(i as int), fmt, multi),
        decreases parts.len() - i,
    {
        proof {
            assert(pv.take(i + 1).drop_last() =~= pv.take(i as int));
            assert(pv.take(i + 1).last() == (parts@[i as int].name@, parts@[i as int].body@));
        }
        if i > 0 {
            push_str(&mut out, "\n");
        }
        if multi {
            match fmt {
                SectionFmt::Table => {
                    push_str(&mut out, "=== ");
                    push_str(&mut out, parts[i].name.as_str());
                    push_str(&mut out, " ===\n");
                },
                SectionFmt::Typst => {
                    push_str(&mut out, "== ");
                    push_str(&mut out, parts[i].name.as_str());
                    push_str(&mut out, "\n");
                },
                SectionFmt::Csv => {
                    push_str(&mut out, "# section: ");
                    push_str(&mut out, parts[i].name.as_str());
                    push_str(&mut out, "\n");
                },
            }
        }
        push_str(&mut out, parts[i].body.as_str());
        i = i + 1;
    }
    assert(pv.take(parts.len() as int) =~= pv);
    out
}

}
