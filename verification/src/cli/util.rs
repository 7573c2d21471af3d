//! Small helpers shared by the commands.

use vstd::prelude::*;
use crate::text::{chars_of, has_prefix, push_char, push_chars, push_str, slice_vec, starts_with};

verus! {

/// A path with a `home` prefix replaced by `~` (an empty `home` never
/// matches).
pub open spec fn shorten_home_spec(path: Seq<char>, home: Seq<char>) -> Seq<char> {
    if home.len() > 0 && has_prefix(path, home) {
        seq!['~'] + path.skip(home.len() as int)
    } else {
        path
    }
}

/// Replaces a `home` prefix of `path` by `~`, for shorter display.
pub fn shorten_home(path: &str, home: &str) -> (r: String)
    ensures
        r@ == shorten_home_spec(path@, home@),
{
    let p = chars_of(path);
    let h = chars_of(home);
    let mut r = String::new();
    if h.len() > 0 && starts_with(&p, &h) {
        push_char(&mut r, '~');
        let rest = slice_vec(&p, h.len(), p.len());
        push_chars(&mut r, &rest);
        assert(r@ =~= seq!['~'] + path@.skip(home@.len() as int));
    } else {
        push_str(&mut r, path);
    }
    r
}

/// The message when the query database does not exist.
pub open spec fn missing_db_message(path: Seq<char>) -> Seq<char> {
    "database not found: "@ + path + "\nRun 'mindtape watch' first to create the index."@
}

/// The message when the query database does not exist yet.
pub fn missing_db(path: &str) -> (r: String)
    ensures
        r@ == missing_db_message(path@),
{
    let mut r = String::new();
    push_str(&mut r, "database not found: ");
    push_str(&mut r, path);
    push_str(&mut r, "\nRun 'mindtape watch' first to create the index.");
    r
}

}
