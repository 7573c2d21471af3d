//! Indexing decisions: content hashes, whether a file needs indexing
//! again, the project root of a file, and the project files it depends
//! on.

use vstd::prelude::*;
use crate::paths::{strip_prefix, strip_prefix_of};
use crate::text::{copy_string, str_eq, strs};

verus! {

broadcast use vstd::string::group_string_axioms;

/// The lower-case hexadecimal SHA-256 digest of some bytes.
pub uninterp spec fn sha256_hex(bytes: Seq<u8>) -> Seq<char>;

/// Calls `sha2::Sha256::digest` and formats the digest in lower-case hex.
/// Trusted: the text is the named `sha256_hex`, two hex digits per byte
/// of the 32-byte digest.
#[verifier::external_body]
fn sha256_text(bytes: &Vec<u8>) -> (r: String)
    ensures
        r@ == sha256_hex(bytes@),
        r@.len() == 64,
{
    format!("{:x}", <sha2::Sha256 as sha2::Digest>::digest(bytes))
}

/// The content hash of a file's bytes: the hex SHA-256 digest.
pub fn hash_contents(bytes: &Vec<u8>) -> (r: String)
    ensures
        r@ == sha256_hex(bytes@),
        r@.len() == 64,
{
    sha256_text(bytes)
}

/// Whether a file must be indexed, given its stored hash (if it was
/// indexed before) and the hash of its current bytes.
pub open spec fn needs_indexing_spec(stored: Option<Seq<char>>, current: Seq<char>) -> bool {
    stored != Some(current)
}

/// Whether a file must be indexed: unless the stored hash equals the
/// current one.
pub fn needs_indexing(stored: Option<&str>, current: &str) -> (r: bool)
    ensures
        r == !(stored matches Some(s) && s@ == current@),
        r == needs_indexing_spec(
            match stored {
                Some(s) => Some(s@),
                None => None,
            },
            current@,
        ),
{
    match stored {
        Some(s) => !str_eq(s, current),
        None => true,
    }
}

/// A file whose bytes are unchanged since they were indexed, so that the
/// stored hash is the hash of those very bytes, is skipped; bytes whose
/// hash differs from the stored one are indexed again.
pub proof fn law_unchanged_file_skipped(bytes: Seq<u8>, stored: Seq<char>)
    ensures
        !needs_indexing_spec(Some(sha256_hex(bytes)), sha256_hex(bytes)),
        stored != sha256_hex(bytes) ==> needs_indexing_spec(Some(stored), sha256_hex(bytes)),
{
}

// ---------------------------------------------------------------------------
// Project roots
// ---------------------------------------------------------------------------

/// A folder on the way up from a file, and which project markers it has.
#[derive(Debug, Clone, PartialEq)]
pub struct RootCandidate {
    pub dir: String,
    pub has_cargo_toml: bool,
    pub has_lib_dir: bool,
    pub has_git: bool,
}

/// A folder has a project marker: `Cargo.toml`, a `lib` folder, or `.git`.
pub open spec fn is_marked(c: RootCandidate) -> bool {
    c.has_cargo_toml || c.has_lib_dir || c.has_git
}

/// The first marked folder among the candidates, else the start folder.
pub open spec fn project_root_spec(start: Seq<char>, cs: Seq<RootCandidate>) -> Seq<char>
    decreases cs.len(),
{
    if cs.len() == 0 {
        start
    } else if is_marked(cs[0]) {
        cs[0].dir@
    } else {
        project_root_spec(start, cs.drop_first())
    }
}

/// The project root of a folder, given the folder and its ancestors (the
/// folder first) with their markers: the first one that has a marker, or
/// the folder itself when none has.
pub fn find_project_root(start_dir: &str, ancestors: &Vec<RootCandidate>) -> (r: String)
    ensures
        r@ == project_root_spec(start_dir@, ancestors@),
{
    let mut i: usize = 0;
    assert(ancestors@.skip(0) =~= ancestors@);
    while i < ancestors.len()
        invariant
            i <= ancestors.len(),
            project_root_spec(start_dir@, ancestors@.skip(i as int)) == project_root_spec(
                start_dir@,
                ancestors@,
            ),
        decreases ancestors.len() - i,
    {
        proof {
            assert(ancestors@.skip(i as int)[0] == ancestors@[i as int]);
            assert(ancestors@.skip(i as int).drop_first() =~= ancestors@.skip(i + 1));
        }
        let c = &ancestors[i];
        if c.has_cargo_toml || c.has_lib_dir || c.has_git {
            return copy_string(&c.dir);
        }
        i = i + 1;
    }
    assert(ancestors@.skip(i as int) =~= Seq::<RootCandidate>::empty());
    start_dir.to_string()
}

// ---------------------------------------------------------------------------
// Dependencies
// ---------------------------------------------------------------------------

/// `Path <= Path` (component-wise order).
pub uninterp spec fn path_le(a: Seq<char>, b: Seq<char>) -> bool;

/// Compares two paths with `Path <= Path`.  Trusted: the result is the
/// named `path_le`.
#[verifier::external_body]
fn path_le_of(a: &str, b: &str) -> (r: bool)
    ensures
        r == path_le(a@, b@),
{
    std::path::Path::new(a) <= std::path::Path::new(b)
}

/// The dependencies inside the project: those under `root`, relative to
/// it, in order.
pub open spec fn local_deps(deps: Seq<Seq<char>>, root: Seq<char>) -> Seq<Seq<char>>
    decreases deps.len(),
{
    if deps.len() == 0 {
        Seq::empty()
    } else {
        local_deps(deps.drop_last(), root) + match strip_prefix_of(deps.last(), root) {
            Some(rel) => seq![rel],
            None => Seq::empty(),
        }
    }
}

/// Where insertion puts `x` in `s`: after the last element at most `x`.
pub open spec fn path_insert_pos(s: Seq<Seq<char>>, x: Seq<char>) -> int
    decreases s.len(),
{
    if s.len() == 0 {
        0
    } else if path_le(s.last(), x) {
        s.len() as int
    } else {
        path_insert_pos(s.drop_last(), x)
    }
}

/// A stable insertion sort of paths by `Path <=`.
pub open spec fn sort_paths(s: Seq<Seq<char>>) -> Seq<Seq<char>>
    decreases s.len(),
{
    if s.len() == 0 {
        Seq::empty()
    } else {
        let t = sort_paths(s.drop_last());
        let p = path_insert_pos(t, s.last());
        t.take(p).push(s.last()) + t.skip(p)
    }
}

proof fn lemma_path_insert_pos(s: Seq<Seq<char>>, x: Seq<char>)
    ensures
        0 <= path_insert_pos(s, x) <= s.len(),
    decreases s.len(),
{
    if s.len() > 0 && !path_le(s.last(), x) {
        lemma_path_insert_pos(s.drop_last(), x);
    }
}

proof fn lemma_sort_paths_len(s: Seq<Seq<char>>)
    ensures
        sort_paths(s).len() == s.len(),
    decreases s.len(),
{
    if s.len() > 0 {
        lemma_sort_paths_len(s.drop_last());
        lemma_path_insert_pos(sort_paths(s.drop_last()), s.last());
    }
}

fn sort_path_list(v: Vec<String>) -> (r: Vec<String>)
    ensures
        strs(r@) == sort_paths(strs(v@)),
{
    let ghost sv = strs(v@);
    let mut out: Vec<String> = Vec::new();
    let mut i: usize = 0;
    while i < v.len()
        invariant
            i <= v.len(),
            sv == strs(v@),
            strs(out@) == sort_paths(sv.take(i as int)),
            out.len() == i,
        decreases v.len() - i,
    {
        let x = copy_string(&v[i]);
        let ghost s = strs(out@);
        proof {
            lemma_sort_paths_len(sv.take(i as int));
        }
        let mut p = out.len();
        assert(s.take(p as int) =~= s);
        while p > 0 && !path_le_of(out[p - 1].as_str(), x.as_str())
            invariant
                p <= out.len(),
                s == strs(out@),
                path_insert_pos(s, x@) == path_insert_pos(s.take(p as int), x@),
            decreases p,
        {
            proof {
                assert(s.take(p as int).drop_last() =~= s.take(p - 1));
                assert(s.take(p as int).last() == out@[p - 1]@);
            }
            p = p - 1;
        }
        proof {
            if p > 0 {
                assert(s.take(p as int).last() == out@[p - 1]@);
            }
        }
        let ghost before = out@;
        out.insert(p, x);
        proof {
            let t = sv.take(i + 1);
            assert(t.drop_last() =~= sv.take(i as int));
            assert(t.last() == x@);
            assert(strs(out@) =~= s.take(p as int).push(x@) + s.skip(p as int));
        }
        i = i + 1;
    }
    assert(sv.take(v.len() as int) =~= sv);
    out
}

/// The dependencies to record for a file: the resolved dependency paths
/// that lie under the project root, made relative to it, sorted.
pub fn local_dependencies(resolved: &Vec<String>, root: &str) -> (r: Vec<String>)
    ensures
        strs(r@) == sort_paths(local_deps(strs(resolved@), root@)),
{
    let ghost sr = strs(resolved@);
    let mut paths: Vec<String> = Vec::new();
    let mut i: usize = 0;
    while i < resolved.len()
        invariant
            i <= resolved.len(),
            sr == strs(resolved@),
            strs(paths@) == local_deps(sr.take(i as int), root@),
        decreases resolved.len() - i,
    {
        proof {
            assert(sr.take(i + 1).drop_last() =~= sr.take(i as int));
            assert(sr.take(i + 1).last() == resolved@[i as int]@);
        }
        match strip_prefix(resolved[i].as_str(), root) {
            Some(rel) => {
                let ghost before = paths@;
                paths.push(rel);
                assert(paths@ == before.push(rel));
                assert(strs(paths@) =~= strs(before).push(rel@));
            },
            None => {},
        }
        i = i + 1;
    }
    assert(sr.take(resolved.len() as int) =~= sr);
    sort_path_list(paths)
}

}
