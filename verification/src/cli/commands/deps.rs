//! File dependencies as text and CSV.

use vstd::prelude::*;
use crate::cli::format::{csv_text, or_empty, rows_view, same_lengths, write_csv};
use crate::cli::util::{shorten_home, shorten_home_spec};
use crate::store::FileDependencies;
use crate::text::{copy_string, dec_nat, opt_view, push_str, push_usize, strs};

verus! {

broadcast use vstd::string::group_string_axioms;

/// One `  - <path>` line per path.
pub open spec fn path_lines(paths: Seq<Seq<char>>, home: Seq<char>) -> Seq<char>
    decreases paths.len(),
{
    if paths.len() == 0 {
        Seq::empty()
    } else {
        path_lines(paths.drop_last(), home) + "  - "@ + shorten_home_spec(paths.last(), home) + "\n"@
    }
}

/// The text of one file's dependencies.
pub open spec fn deps_text(d: FileDependencies, home: Seq<char>) -> Seq<char> {
    let imports = strs(d.imports@);
    let by = strs(d.imported_by@);
    "File: "@ + shorten_home_spec(d.file_path@, home) + (match opt_view(&d.file_title) {
        Some(t) => " ("@ + t + ")"@,
        None => Seq::empty(),
    }) + "\n\n"@ + if imports.len() == 0 && by.len() == 0 {
        "  No dependencies.\n"@
    } else {
        (if imports.len() > 0 {
            "Imports:\n"@ + path_lines(imports, home) + (if by.len() > 0 {
                "\n"@
            } else {
                Seq::empty()
            })
        } else {
            Seq::empty()
        }) + (if by.len() > 0 {
            "Imported by:\n"@ + path_lines(by, home)
        } else {
            Seq::empty()
        })
    }
}

fn push_path_lines(out: &mut String, paths: &Vec<String>, home: &str)
    ensures
        final(out)@ == old(out)@ + path_lines(strs(paths@), home@),
{
    let ghost start = out@;
    let mut i: usize = 0;
    while i < paths.len()
        invariant
            i <= paths.len(),
            out@ == start + path_lines(strs(paths@).take(i as int), home@),
        decreases paths.len() - i,
    {
        proof {
            assert(strs(paths@).take(i + 1).drop_last() =~= strs(paths@).take(i as int));
            assert(strs(paths@).take(i + 1).last() == paths@[i as int]@);
        }
        push_str(out, "  - ");
        let p = shorten_home(paths[i].as_str(), home);
        push_str(out, p.as_str());
        push_str(out, "\n");
        i = i + 1;
    }
    assert(strs(paths@).take(paths.len() as int) =~= strs(paths@));
}

/// Formats one file's dependencies: what it imports and what imports it.
pub fn format_deps(deps: &FileDependencies, home: &str) -> (r: String)
    ensures
        r@ == deps_text(*deps, home@),
{
    let mut out = String::new();
    push_str(&mut out, "File: ");
    let p = shorten_home(deps.file_path.as_str(), home);
    push_str(&mut out, p.as_str());
    if let Some(t) = &deps.file_title {
        push_str(&mut out, " (");
        push_str(&mut out, t.as_str());
        push_str(&mut out, ")");
    }
    push_str(&mut out, "\n\n");
    if deps.imports.len() == 0 && deps.imported_by.len() == 0 {
        push_str(&mut out, "  No dependencies.\n");
    } else {
        if deps.imports.len() > 0 {
            push_str(&mut out, "Imports:\n");
            push_path_lines(&mut out, &deps.imports, home);
            if deps.imported_by.len() > 0 {
                push_str(&mut out, "\n");
            }
        }
        if deps.imported_by.len() > 0 {
            push_str(&mut out, "Imported by:\n");
            push_path_lines(&mut out, &deps.imported_by, home);
        }
    }
    assert(out@ =~= deps_text(*deps, home@));
    out
}

/// The CSV records of one file's dependencies: a header, then one record
/// per import and one per importer.
pub open spec fn deps_csv_spec(d: FileDependencies) -> Seq<Seq<Seq<char>>> {
    seq![seq!["type"@, "file"@, "target"@]] + strs(d.imports@).map_values(
        |t: Seq<char>| seq!["imports"@, d.file_path@, t],
    ) + strs(d.imported_by@).map_values(|t: Seq<char>| seq!["imported_by"@, d.file_path@, t])
}

fn push_row(rows: &mut Vec<Vec<String>>, row: Vec<String>)
    ensures
        rows_view(final(rows)@) == rows_view(old(rows)@).push(strs(row@)),
{
    let ghost before = rows@;
    rows.push(row);
    proof {
        assert(rows@ == before.push(row));
        assert(rows_view(rows@) =~= rows_view(before).push(strs(row@)));
    }
}

fn row3(a: String, b: String, c: String) -> (r: Vec<String>)
    ensures
        strs(r@) == seq![a@, b@, c@],
{
    let mut r: Vec<String> = Vec::new();
    r.push(a);
    r.push(b);
    r.push(c);
    assert(strs(r@) =~= seq![a@, b@, c@]);
    r
}

fn push_link_rows(rows: &mut Vec<Vec<String>>, kind: &str, file: &String, targets: &Vec<String>)
    ensures
        rows_view(final(rows)@) == rows_view(old(rows)@) + strs(targets@).map_values(
            |t: Seq<char>| seq![kind@, file@, t],
        ),
{
    let ghost start = rows_view(rows@);
    let mut i: usize = 0;
    while i < targets.len()
        invariant
            i <= targets.len(),
            rows_view(rows@) == start + strs(targets@).take(i as int).map_values(
                |t: Seq<char>| seq![kind@, file@, t],
            ),
        decreases targets.len() - i,
    {
        push_row(rows, row3(kind.to_string(), copy_string(file), copy_string(&targets[i])));
        proof {
            assert(strs(targets@)[i as int] == targets@[i as int]@);
            assert(rows_view(rows@) =~~= start + strs(targets@).take(i + 1).map_values(
                |t: Seq<char>| seq![kind@, file@, t],
            ));
        }
        i = i + 1;
    }
    assert(strs(targets@).take(targets.len() as int) =~= strs(targets@));
}

/// Formats one file's dependencies as CSV.
pub fn format_deps_csv(deps: &FileDependencies) -> (r: Result<String, String>)
    ensures
        r matches Ok(t) && t@ == csv_text(deps_csv_spec(*deps)),
{
    let mut rows: Vec<Vec<String>> = Vec::new();
    push_row(&mut rows, row3("type".to_string(), "file".to_string(), "target".to_string()));
    push_link_rows(&mut rows, "imports", &deps.file_path, &deps.imports);
    push_link_rows(&mut rows, "imported_by", &deps.file_path, &deps.imported_by);
    assert(rows_view(rows@) =~~= deps_csv_spec(*deps));
    assert(same_lengths(deps_csv_spec(*deps))) by {
        let s = deps_csv_spec(*deps);
        let a = strs(deps.imports@);
        let b = strs(deps.imported_by@);
        assert forall|i: int| 0 <= i < s.len() implies #[trigger] s[i].len() == s[0].len() by {
            if 1 <= i < 1 + a.len() {
                assert(s[i] == seq!["imports"@, deps.file_path@, a[i - 1]]);
            } else if i >= 1 + a.len() {
                assert(s[i] == seq!["imported_by"@, deps.file_path@, b[i - 1 - a.len()]]);
            }
        }
    }
    write_csv(&rows)
}

/// The CSV records of all files' dependencies: a header, then file, title
/// and the two counts per file.
pub open spec fn all_deps_csv_spec(all: Seq<FileDependencies>) -> Seq<Seq<Seq<char>>> {
    seq![seq!["file"@, "title"@, "imports_count"@, "imported_by_count"@]] + all.map_values(
        |d: FileDependencies|
            seq![
                d.file_path@,
                or_empty(opt_view(&d.file_title)),
                dec_nat(d.imports.len() as nat),
                dec_nat(d.imported_by.len() as nat),
            ],
    )
}

/// Formats all files' dependencies as CSV.
pub fn format_all_deps_csv(all_deps: &Vec<FileDependencies>) -> (r: Result<String, String>)
    ensures
        r matches Ok(t) && t@ == csv_text(all_deps_csv_spec(all_deps@)),
{
    let mut rows: Vec<Vec<String>> = Vec::new();
    let mut header: Vec<String> = Vec::new();
    header.push("file".to_string());
    header.push("title".to_string());
    header.push("imports_count".to_string());
    header.push("imported_by_count".to_string());
    assert(strs(header@) =~= seq!["file"@, "title"@, "imports_count"@, "imported_by_count"@]);
    push_row(&mut rows, header);
    let ghost head = rows_view(rows@);
    let mut i: usize = 0;
    while i < all_deps.len()
        invariant
            i <= all_deps.len(),
            head =~~= seq![seq!["file"@, "title"@, "imports_count"@, "imported_by_count"@]],
            rows_view(rows@) == head + all_deps@.take(i as int).map_values(
                |d: FileDependencies|
                    seq![
                        d.file_path@,
                        or_empty(opt_view(&d.file_title)),
                        dec_nat(d.imports.len() as nat),
                        dec_nat(d.imported_by.len() as nat),
                    ],
            ),
        decreases all_deps.len() - i,
    {
        let d = &all_deps[i];
        let mut row: Vec<String> = Vec::new();
        row.push(copy_string(&d.file_path));
        row.push(
            match &d.file_title {
                Some(t) => copy_string(t),
                None => String::new(),
            },
        );
        let mut a = String::new();
        push_usize(&mut a, d.imports.len());
        row.push(a);
        let mut b = String::new();
        push_usize(&mut b, d.imported_by.len());
        row.push(b);
        assert(strs(row@) =~= seq![
            d.file_path@,
            or_empty(opt_view(&d.file_title)),
            dec_nat(d.imports.len() as nat),
            dec_nat(d.imported_by.len() as nat),
        ]);
        push_row(&mut rows, row);
        assert(rows_view(rows@) =~~= head + all_deps@.take(i + 1).map_values(
            |d: FileDependencies|
                seq![
                    d.file_path@,
                    or_empty(opt_view(&d.file_title)),
                    dec_nat(d.imports.len() as nat),
                    dec_nat(d.imported_by.len() as nat),
                ],
        ));
        i = i + 1;
    }
    assert(all_deps@.take(all_deps.len() as int) =~= all_deps@);
    assert(rows_view(rows@) =~~= all_deps_csv_spec(all_deps@));
    assert(same_lengths(all_deps_csv_spec(all_deps@))) by {
        let s = all_deps_csv_spec(all_deps@);
        assert forall|i: int| 0 <= i < s.len() implies #[trigger] s[i].len() == s[0].len() by {
            if i > 0 {
                let d = all_deps@[i - 1];
                assert(s[i] == seq![
                    d.file_path@,
                    or_empty(opt_view(&d.file_title)),
                    dec_nat(d.imports.len() as nat),
                    dec_nat(d.imported_by.len() as nat),
                ]);
            }
        }
    }
    write_csv(&rows)
}

}
