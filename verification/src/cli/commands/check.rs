//! `check`: toggling a task's checkbox.

use vstd::prelude::*;
use crate::store::TaskWithFile;
use crate::text::push_str;

verus! {

/// Arguments of `check`.
#[derive(Debug, Clone, PartialEq)]
pub struct CheckArgs {
    /// Task ID (or masked pattern).
    pub task_id: String,
    /// Path to the database.
    pub db: Option<String>,
}

/// The message when a file changed since it was indexed.
pub open spec fn stale_file_message(path: Seq<char>) -> Seq<char> {
    "file "@ + path + " has changed since last index\nRun 'mindtape watch' to re-index, then try again."@
}

/// The message when a file changed since it was indexed.
pub fn stale_file(path: &str) -> (r: String)
    ensures
        r@ == stale_file_message(path@),
{
    let mut r = String::new();
    push_str(&mut r, "file ");
    push_str(&mut r, path);
    push_str(&mut r, " has changed since last index\nRun 'mindtape watch' to re-index, then try again.");
    r
}

/// The report of a toggled task: `Task <id> checked: <title>`, or
/// `unchecked` for a task that was done.
pub open spec fn checked_message(id: Seq<char>, was_done: bool, title: Seq<char>) -> Seq<char> {
    "Task "@ + id + " "@ + (if was_done { "unchecked"@ } else { "checked"@ }) + ": "@ + title
}

/// The report of a toggled task.
pub fn check_message(task: &TaskWithFile) -> (r: String)
    ensures
        r@ == checked_message(task.task_id@, task.is_done, task.task_title@),
{
    let mut r = String::new();
    push_str(&mut r, "Task ");
    push_str(&mut r, task.task_id.as_str());
    push_str(&mut r, " ");
    push_str(&mut r, if task.is_done { "unchecked" } else { "checked" });
    push_str(&mut r, ": ");
    push_str(&mut r, task.task_title.as_str());
    r
}

}
