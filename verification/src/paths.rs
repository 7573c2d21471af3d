//! Paths, held as their text, and the parts of `std::path` that the
//! library reads from them.
//!
//! What `std::path` computes on a path (its components, its parent, its
//! file name, a prefix stripped off) is given a name here; each name is
//! applied by the one call that computes it.

use vstd::prelude::*;

verus! {

/// The text of each component of `p` (`Path::components`, each taken by
/// `as_os_str`).
pub uninterp spec fn components_of(p: Seq<char>) -> Seq<Seq<char>>;

/// `Path::parent`.
pub uninterp spec fn parent_of(p: Seq<char>) -> Option<Seq<char>>;

/// `Path::file_name`.
pub uninterp spec fn file_name_of(p: Seq<char>) -> Option<Seq<char>>;

/// `Path::strip_prefix`, when it succeeds.
pub uninterp spec fn strip_prefix_of(p: Seq<char>, base: Seq<char>) -> Option<Seq<char>>;

/// `Path == Path` (component-wise equality).
pub uninterp spec fn same_path(a: Seq<char>, b: Seq<char>) -> bool;

/// `Path::join`.
pub uninterp spec fn joined(base: Seq<char>, rest: Seq<char>) -> Seq<char>;

/// `Path::extension`.
pub uninterp spec fn extension_of(p: Seq<char>) -> Option<Seq<char>>;

/// Calls `Path::components`.  Trusted: the result is the named
/// `components_of`; each component is one or more characters of the path
/// text, so there are at most as many components as characters.
#[verifier::external_body]
pub(crate) fn components(p: &str) -> (r: Vec<String>)
    ensures
        crate::text::strs(r@) == components_of(p@),
        r.len() <= p@.len(),
{
    std::path::Path::new(p).components().map(|c| c.as_os_str().to_string_lossy().to_string()).collect()
}

/// Calls `Path::parent`.  Trusted: the result is the named `parent_of`.
#[verifier::external_body]
pub(crate) fn parent(p: &str) -> (r: Option<String>)
    ensures
        crate::text::opt_view(&r) == parent_of(p@),
{
    std::path::Path::new(p).parent().map(|q| q.to_string_lossy().to_string())
}

/// Calls `Path::file_name`.  Trusted: the result is the named
/// `file_name_of`.
#[verifier::external_body]
pub(crate) fn file_name(p: &str) -> (r: Option<String>)
    ensures
        crate::text::opt_view(&r) == file_name_of(p@),
{
    std::path::Path::new(p).file_name().map(|q| q.to_string_lossy().to_string())
}

/// Calls `Path::strip_prefix`.  Trusted: the result is the named
/// `strip_prefix_of`.
#[verifier::external_body]
pub(crate) fn strip_prefix(p: &str, base: &str) -> (r: Option<String>)
    ensures
        crate::text::opt_view(&r) == strip_prefix_of(p@, base@),
{
    match std::path::Path::new(p).strip_prefix(base) {
        Ok(q) => Some(q.to_string_lossy().to_string()),
        Err(_) => None,
    }
}

/// Compares two paths with `Path == Path`.  Trusted: the result is the
/// named `same_path`, which holds of equal texts.
#[verifier::external_body]
pub(crate) fn paths_equal(a: &str, b: &str) -> (r: bool)
    ensures
        r == same_path(a@, b@),
        a@ == b@ ==> r,
{
    std::path::Path::new(a) == std::path::Path::new(b)
}

/// Calls `Path::join`.  Trusted: the result is the named `joined`.
#[verifier::external_body]
pub(crate) fn join_path(base: &str, rest: &str) -> (r: String)
    ensures
        r@ == joined(base@, rest@),
{
    std::path::Path::new(base).join(rest).to_string_lossy().to_string()
}

/// Calls `Path::extension`.  Trusted: the result is the named
/// `extension_of`.
#[verifier::external_body]
pub(crate) fn extension(p: &str) -> (r: Option<String>)
    ensures
        crate::text::opt_view(&r) == extension_of(p@),
{
    std::path::Path::new(p).extension().map(|e| e.to_string_lossy().to_string())
}

}
