//! The command line: arguments, output formats and what the commands
//! compute.

use vstd::prelude::*;
use crate::text::{chars_of, copy_string, slice_vec, string_of, strs};

pub mod args;
pub mod format;
pub mod util;
pub mod commands;

use commands::check::CheckArgs;
use commands::id::IdArgs;
use commands::init::InitArgs;
use commands::watch::WatchArgs;
use commands::inspect::InspectArgs;
use commands::list::ListArgs;
use commands::set::SetArgs;










verus! {

broadcast use vstd::string::group_string_axioms;

/// Output format for query commands.
#[derive(Debug, Clone, Copy, PartialEq, Eq, Structural)]
pub enum OutputFormat {
    Table,
    Json,
    Csv,
    Typst,
}

impl Default for OutputFormat {
    fn default() -> (r: OutputFormat)
        ensures
            r == OutputFormat::Table,
    {
        OutputFormat::Table
    }
}

/// Shared query options of the commands that query the database.
#[derive(Debug, Clone, PartialEq)]
pub struct QueryOpts {
    /// Path to the database.
    pub db: Option<String>,
    /// Output format.
    pub format: OutputFormat,
    /// Shorthand for `--format json`.
    pub json: bool,
}

impl Default for QueryOpts {
    fn default() -> (r: QueryOpts)
        ensures
            r.db is None,
            r.format == OutputFormat::Table,
            !r.json,
    {
        QueryOpts { db: None, format: OutputFormat::Table, json: false }
    }
}

impl QueryOpts {
    /// The effective output format: `--json` overrides `--format`.
    pub fn output_format(&self) -> (r: OutputFormat)
        ensures
            r == if self.json {
                OutputFormat::Json
            } else {
                self.format
            },
    {
        if self.json {
            OutputFormat::Json
        } else {
            self.format
        }
    }
}

/// The whole command line.
#[derive(Debug, Clone, PartialEq)]
pub struct Cli {
    pub command: Option<Command>,
    /// Typst file to evaluate (when no command is given).
    pub file: Option<String>,
    /// Show only tasks with due dates, sorted by date.
    pub due: bool,
    /// Limit output to N items.
    pub limit: Option<usize>,
    /// Verbosity (`-v` info, `-vv` debug, `-vvv` trace).
    pub verbose: u8,
}

/// The commands.
#[derive(Debug, Clone, PartialEq)]
pub enum Command {
    /// Watch and index folders.
    Watch(WatchArgs),
    /// List tasks from the index.
    List(Box<ListArgs>),
    /// Inspect the index: statistics, files, and dependencies.
    Inspect(InspectArgs),
    /// Toggle a task's checkbox.
    Check(CheckArgs),
    /// Update task properties.
    SetTask(SetArgs),
    /// Generate or validate a task ID.
    Id(IdArgs),
    /// Install the Typst library for local `#import`.
    Init(InitArgs),
}

/// `a` is `-` followed by one or more ASCII digits.
pub open spec fn is_dash_number(a: Seq<char>) -> bool {
    a.len() > 1 && a[0] == '-' && forall|i: int| 1 <= i < a.len() ==> '0' <= #[trigger] a[i] <= '9'
}

/// The arguments with each `-N` rewritten to `-n N`.
pub open spec fn preprocess_spec(args: Seq<Seq<char>>) -> Seq<Seq<char>>
    decreases args.len(),
{
    if args.len() == 0 {
        Seq::empty()
    } else {
        let a = args.last();
        preprocess_spec(args.drop_last()) + if is_dash_number(a) {
            seq!["-n"@, a.drop_first()]
        } else {
            seq![a]
        }
    }
}

fn dash_number(a: &str) -> (r: Option<String>)
    ensures
        match r {
            Some(n) => is_dash_number(a@) && n@ == a@.drop_first(),
            None => !is_dash_number(a@),
        },
{
    let v = chars_of(a);
    if v.len() < 2 || v[0] != '-' {
        return None;
    }
    let mut i: usize = 1;
    while i < v.len()
        invariant
            1 <= i <= v.len(),
            v@ == a@,
            forall|k: int| 1 <= k < i ==> '0' <= #[trigger] v@[k] <= '9',
        decreases v.len() - i,
    {
        if !('0' <= v[i] && v[i] <= '9') {
            return None;
        }
        i = i + 1;
    }
    let rest = slice_vec(&v, 1, v.len());
    assert(rest@ =~= a@.drop_first());
    Some(string_of(&rest))
}

/// Rewrites `-3` to `-n 3` so that the `-N` shorthand parses as a limit.
pub fn preprocess_args(raw: Vec<String>) -> (r: Vec<String>)
    ensures
        strs(r@) == preprocess_spec(strs(raw@)),
{
    let ghost sr = strs(raw@);
    let mut out: Vec<String> = Vec::new();
    let mut i: usize = 0;
    while i < raw.len()
        invariant
            i <= raw.len(),
            sr == strs(raw@),
            strs(out@) == preprocess_spec(sr.take(i as int)),
        decreases raw.len() - i,
    {
        proof {
            assert(sr.take(i + 1).drop_last() =~= sr.take(i as int));
            assert(sr.take(i + 1).last() == raw@[i as int]@);
        }
        let ghost before = out@;
        match dash_number(raw[i].as_str()) {
            Some(n) => {
                let flag = "-n".to_string();
                out.push(flag);
                out.push(n);
                proof {
                    assert(out@ == before.push(flag).push(n));
                    assert(strs(out@) =~= strs(before) + seq!["-n"@, raw@[i as int]@.drop_first()]);
                }
            },
            None => {
                let c = copy_string(&raw[i]);
                out.push(c);
                proof {
                    assert(out@ == before.push(c));
                    assert(strs(out@) =~= strs(before) + seq![raw@[i as int]@]);
                }
            },
        }
        i = i + 1;
    }
    assert(sr.take(raw.len() as int) =~= sr);
    out
}


/// Arguments with no `-N` among them pass through unchanged.
pub proof fn law_preprocess_keeps_plain_args(args: Seq<Seq<char>>)
    requires
        forall|i: int| 0 <= i < args.len() ==> !is_dash_number(#[trigger] args[i]),
    ensures
        preprocess_spec(args) == args,
    decreases args.len(),
{
    if args.len() > 0 {
        let d = args.drop_last();
        assert forall|i: int| 0 <= i < d.len() implies !is_dash_number(#[trigger] d[i]) by {
            assert(d[i] == args[i]);
        }
        law_preprocess_keeps_plain_args(d);
        assert(!is_dash_number(args[args.len() - 1]));
        assert(d + seq![args.last()] =~= args);
    }
}


proof fn lemma_preprocess_plain(args: Seq<Seq<char>>)
    ensures
        forall|i: int| 0 <= i < preprocess_spec(args).len() ==> !is_dash_number(#[trigger] preprocess_spec(args)[i]),
    decreases args.len(),
{
    if args.len() > 0 {
        let d = args.drop_last();
        lemma_preprocess_plain(d);
        let a = args.last();
        let p = preprocess_spec(d);
        let r = preprocess_spec(args);
        assert forall|i: int| 0 <= i < r.len() implies !is_dash_number(#[trigger] r[i]) by {
            if i < p.len() {
                assert(r[i] == p[i]);
            } else if is_dash_number(a) {
                reveal_strlit("-n");
                if i == p.len() {
                    assert(r[i] == "-n"@);
                    assert(!('0' <= r[i][1] <= '9'));
                } else {
                    assert(r[i] == a.drop_first());
                    assert(r[i][0] == a[1]);
                }
            } else {
                assert(r[i] == a);
            }
        }
    }
}

/// Preprocessing is idempotent: preprocessing the result again changes
/// nothing.
pub proof fn law_preprocess_idempotent(args: Seq<Seq<char>>)
    ensures
        preprocess_spec(preprocess_spec(args)) == preprocess_spec(args),
{
    lemma_preprocess_plain(args);
    law_preprocess_keeps_plain_args(preprocess_spec(args));
}

}
