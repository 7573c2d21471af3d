//! The command-line arguments of the plain commands: evaluating a file,
//! watching, listing, and the index summaries.
//!
//! Every parser reads its arguments left to right; a flag that takes a
//! value takes the next argument.

use vstd::prelude::*;
use crate::text::{
    chars_of, copy_string, has_prefix, parse_usize, parse_usize_spec, push_str, slice_vec,
    str_eq, strs,
};

verus! {

broadcast use vstd::string::group_string_axioms;

/// A parsed command.
#[derive(Debug, Clone, PartialEq)]
pub enum Command {
    Eval(EvalArgs),
    Watch(WatchArgs),
    List(ListArgs),
    Status(QueryArgs),
    Files(QueryArgs),
}

/// Arguments of evaluating one file.
#[derive(Debug, Clone, PartialEq)]
pub struct EvalArgs {
    pub file: String,
    pub due: bool,
    pub limit: Option<usize>,
}

/// Arguments of `watch`.
#[derive(Debug, Clone, PartialEq)]
pub struct WatchArgs {
    /// Directory to watch (no config file needed).
    pub path: Option<String>,
    /// Explicit config file path.
    pub config: Option<String>,
}

/// Arguments of `list`.
#[derive(Debug, Default, Clone, PartialEq)]
pub struct ListArgs {
    /// `None`: the default (pending); `Some(true)`: done; `Some(false)`:
    /// pending.  `status_all` shows everything.
    pub done: Option<bool>,
    pub status_all: bool,
    pub tag: Option<String>,
    pub due_before: Option<String>,
    pub file: Option<String>,
    pub folder: Option<String>,
    pub limit: Option<usize>,
    pub db: Option<String>,
    pub json: bool,
}

/// Arguments of `status` and `files`.
#[derive(Debug, Clone, PartialEq)]
pub struct QueryArgs {
    pub db: Option<String>,
    pub json: bool,
}

/// The usage text.
pub const USAGE: &'static str = "\
Usage: mindtape <file.typ> [--due] [-N]
       mindtape list [--status done|pending|all] [--tag TAG] [--due-before DATE] [--file PATH] [--folder PREFIX] [-N] [--db PATH]
       mindtape status [--db PATH]
       mindtape files [--db PATH]
       mindtape watch [<path>] [--config <file>]";

// ---------------------------------------------------------------------------
// Plain-value forms
// ---------------------------------------------------------------------------

pub struct EvalArgsV {
    pub file: Seq<char>,
    pub due: bool,
    pub limit: Option<usize>,
}

pub struct WatchArgsV {
    pub path: Option<Seq<char>>,
    pub config: Option<Seq<char>>,
}

pub struct ListArgsV {
    pub done: Option<bool>,
    pub status_all: bool,
    pub tag: Option<Seq<char>>,
    pub due_before: Option<Seq<char>>,
    pub file: Option<Seq<char>>,
    pub folder: Option<Seq<char>>,
    pub limit: Option<usize>,
    pub db: Option<Seq<char>>,
    pub json: bool,
}

pub struct QueryArgsV {
    pub db: Option<Seq<char>>,
    pub json: bool,
}

pub enum CommandV {
    Eval(EvalArgsV),
    Watch(WatchArgsV),
    List(ListArgsV),
    Status(QueryArgsV),
    Files(QueryArgsV),
}

pub open spec fn ov(s: &Option<String>) -> Option<Seq<char>> {
    crate::text::opt_view(s)
}

impl View for ListArgs {
    type V = ListArgsV;

    open spec fn view(&self) -> ListArgsV {
        ListArgsV {
            done: self.done,
            status_all: self.status_all,
            tag: ov(&self.tag),
            due_before: ov(&self.due_before),
            file: ov(&self.file),
            folder: ov(&self.folder),
            limit: self.limit,
            db: ov(&self.db),
            json: self.json,
        }
    }
}

impl View for Command {
    type V = CommandV;

    open spec fn view(&self) -> CommandV {
        match self {
            Command::Eval(a) => CommandV::Eval(EvalArgsV { file: a.file@, due: a.due, limit: a.limit }),
            Command::Watch(a) => CommandV::Watch(WatchArgsV { path: ov(&a.path), config: ov(&a.config) }),
            Command::List(a) => CommandV::List(a@),
            Command::Status(a) => CommandV::Status(QueryArgsV { db: ov(&a.db), json: a.json }),
            Command::Files(a) => CommandV::Files(QueryArgsV { db: ov(&a.db), json: a.json }),
        }
    }
}

// ---------------------------------------------------------------------------
// Shared pieces
// ---------------------------------------------------------------------------

/// The count of a `-N` argument: `-` followed by what parses as a `usize`.
pub open spec fn dash_count(a: Seq<char>) -> Option<usize> {
    if a.len() > 0 && a[0] == '-' {
        parse_usize_spec(a.drop_first())
    } else {
        None
    }
}

fn dash_count_of(a: &str) -> (r: Option<usize>)
    ensures
        r == dash_count(a@),
{
    let v = chars_of(a);
    if v.len() > 0 && v[0] == '-' {
        let rest = slice_vec(&v, 1, v.len());
        assert(rest@ =~= v@.drop_first());
        parse_usize(&rest)
    } else {
        None
    }
}

fn message2(a: &str, b: &str) -> (r: String)
    ensures
        r@ == a@ + b@,
{
    let mut r = String::new();
    push_str(&mut r, a);
    push_str(&mut r, b);
    r
}

fn message3(a: &str, b: &str, c: &str) -> (r: String)
    ensures
        r@ == a@ + b@ + c@,
{
    let mut r = String::new();
    push_str(&mut r, a);
    push_str(&mut r, b);
    push_str(&mut r, c);
    r
}

// ---------------------------------------------------------------------------
// Evaluating a file
// ---------------------------------------------------------------------------

/// The eval arguments after reading `args[i..]` onto `acc` (`file` is
/// empty while none was given).
pub open spec fn eval_from(args: Seq<Seq<char>>, i: int, acc: (Option<Seq<char>>, bool, Option<usize>)) -> (
    Option<Seq<char>>,
    bool,
    Option<usize>,
)
    decreases args.len() - i,
{
    if i < 0 || i >= args.len() {
        acc
    } else {
        let a = args[i];
        let next = if a == "--due"@ {
            (acc.0, true, acc.2)
        } else if dash_count(a) is Some {
            (acc.0, acc.1, dash_count(a))
        } else {
            (Some(a), acc.1, acc.2)
        };
        eval_from(args, i + 1, next)
    }
}

/// The eval arguments of `args`, or the usage text when no file is given.
pub open spec fn eval_args_spec(args: Seq<Seq<char>>) -> Result<EvalArgsV, Seq<char>> {
    let r = eval_from(args, 0, (None, false, None));
    match r.0 {
        Some(f) => Ok(EvalArgsV { file: f, due: r.1, limit: r.2 }),
        None => Err(USAGE@),
    }
}

fn parse_eval_args(args: &Vec<String>) -> (r: Result<EvalArgs, String>)
    ensures
        match r {
            Ok(a) => eval_args_spec(strs(args@)) == Ok::<EvalArgsV, Seq<char>>(
                EvalArgsV { file: a.file@, due: a.due, limit: a.limit },
            ),
            Err(e) => eval_args_spec(strs(args@)) == Err::<EvalArgsV, Seq<char>>(e@),
        },
{
    let ghost sa = strs(args@);
    let mut file: Option<String> = None;
    let mut due = false;
    let mut limit: Option<usize> = None;
    let mut i: usize = 0;
    while i < args.len()
        invariant
            i <= args.len(),
            sa == strs(args@),
            eval_from(sa, i as int, (ov(&file), due, limit)) == eval_from(sa, 0, (None, false, None)),
        decreases args.len() - i,
    {
        let a = args[i].as_str();
        assert(sa[i as int] == a@);
        if str_eq(a, "--due") {
            due = true;
        } else {
            match dash_count_of(a) {
                Some(n) => {
                    limit = Some(n);
                },
                None => {
                    file = Some(a.to_string());
                },
            }
        }
        i = i + 1;
    }
    match file {
        Some(f) => Ok(EvalArgs { file: f, due, limit }),
        None => Err(USAGE.to_string()),
    }
}

// ---------------------------------------------------------------------------
// Watch
// ---------------------------------------------------------------------------

/// The watch arguments after reading `args[i..]` onto `acc`.
pub open spec fn watch_from(args: Seq<Seq<char>>, i: int, acc: WatchArgsV) -> Result<WatchArgsV, Seq<char>>
    decreases args.len() - i,
{
    if i < 0 || i >= args.len() {
        Ok(acc)
    } else if args[i] == "--config"@ {
        if i + 1 < args.len() {
            watch_from(args, i + 2, WatchArgsV { config: Some(args[i + 1]), ..acc })
        } else {
            Err("--config requires a path argument"@)
        }
    } else if args[i].len() > 0 && args[i][0] == '-' {
        Err("unknown watch flag: "@ + args[i])
    } else {
        watch_from(args, i + 1, WatchArgsV { path: Some(args[i]), ..acc })
    }
}

fn parse_watch_args(args: &Vec<String>, from: usize) -> (r: Result<WatchArgs, String>)
    requires
        from <= args.len(),
    ensures
        match r {
            Ok(a) => watch_from(strs(args@), from as int, WatchArgsV { path: None, config: None })
                == Ok::<WatchArgsV, Seq<char>>(WatchArgsV { path: ov(&a.path), config: ov(&a.config) }),
            Err(e) => watch_from(strs(args@), from as int, WatchArgsV { path: None, config: None })
                == Err::<WatchArgsV, Seq<char>>(e@),
        },
{
    let ghost sa = strs(args@);
    let mut path: Option<String> = None;
    let mut config: Option<String> = None;
    let mut i = from;
    while i < args.len()
        invariant
            from <= i <= args.len(),
            sa == strs(args@),
            watch_from(sa, i as int, WatchArgsV { path: ov(&path), config: ov(&config) })
                == watch_from(sa, from as int, WatchArgsV { path: None, config: None }),
        decreases args.len() - i,
    {
        let a = args[i].as_str();
        assert(sa[i as int] == a@);
        if str_eq(a, "--config") {
            if i + 1 < args.len() {
                assert(sa[i + 1] == args@[i + 1]@);
                config = Some(copy_string(&args[i + 1]));
                i = i + 2;
            } else {
                return Err("--config requires a path argument".to_string());
            }
        } else {
            let v = chars_of(a);
            if v.len() > 0 && v[0] == '-' {
                return Err(message2("unknown watch flag: ", a));
            }
            path = Some(a.to_string());
            i = i + 1;
        }
    }
    Ok(WatchArgs { path, config })
}

// ---------------------------------------------------------------------------
// List
// ---------------------------------------------------------------------------

/// The default list arguments.
pub open spec fn list_default() -> ListArgsV {
    ListArgsV {
        done: None,
        status_all: false,
        tag: None,
        due_before: None,
        file: None,
        folder: None,
        limit: None,
        db: None,
        json: false,
    }
}

/// The list arguments after reading `args[i..]` onto `acc`.
pub open spec fn list_from(args: Seq<Seq<char>>, i: int, acc: ListArgsV) -> Result<ListArgsV, Seq<char>>
    decreases args.len() - i,
{
    if i < 0 || i >= args.len() {
        Ok(acc)
    } else {
        let a = args[i];
        let has_next = i + 1 < args.len();
        let v = args[i + 1];
        if a == "--status"@ {
            if !has_next {
                Err("--status requires a value (done, pending, all)"@)
            } else if v == "done"@ {
                list_from(args, i + 2, ListArgsV { done: Some(true), ..acc })
            } else if v == "pending"@ {
                list_from(args, i + 2, ListArgsV { done: Some(false), ..acc })
            } else if v == "all"@ {
                list_from(args, i + 2, ListArgsV { status_all: true, ..acc })
            } else {
                Err("invalid --status value: "@ + v + " (use done, pending, or all)"@)
            }
        } else if a == "--tag"@ {
            if !has_next {
                Err("--tag requires a value"@)
            } else {
                list_from(args, i + 2, ListArgsV { tag: Some(v), ..acc })
            }
        } else if a == "--due-before"@ {
            if !has_next {
                Err("--due-before requires a date (YYYY-MM-DD)"@)
            } else {
                list_from(args, i + 2, ListArgsV { due_before: Some(v), ..acc })
            }
        } else if a == "--file"@ {
            if !has_next {
                Err("--file requires a path"@)
            } else {
                list_from(args, i + 2, ListArgsV { file: Some(v), ..acc })
            }
        } else if a == "--folder"@ {
            if !has_next {
                Err("--folder requires a path"@)
            } else {
                list_from(args, i + 2, ListArgsV { folder: Some(v), ..acc })
            }
        } else if a == "--db"@ {
            if !has_next {
                Err("--db requires a path"@)
            } else {
                list_from(args, i + 2, ListArgsV { db: Some(v), ..acc })
            }
        } else if a == "--json"@ {
            list_from(args, i + 1, ListArgsV { json: true, ..acc })
        } else if dash_count(a) is Some {
            list_from(args, i + 1, ListArgsV { limit: dash_count(a), ..acc })
        } else {
            Err("unknown list argument: "@ + a)
        }
    }
}

fn parse_list_args(args: &Vec<String>, from: usize) -> (r: Result<ListArgs, String>)
    requires
        from <= args.len(),
    ensures
        match r {
            Ok(a) => list_from(strs(args@), from as int, list_default()) == Ok::<ListArgsV, Seq<char>>(a@),
            Err(e) => list_from(strs(args@), from as int, list_default()) == Err::<ListArgsV, Seq<char>>(e@),
        },
{
    let ghost sa = strs(args@);
    let mut list = ListArgs {
        done: None,
        status_all: false,
        tag: None,
        due_before: None,
        file: None,
        folder: None,
        limit: None,
        db: None,
        json: false,
    };
    let mut i = from;
    while i < args.len()
        invariant
            from <= i <= args.len(),
            sa == strs(args@),
            list_from(sa, i as int, list@) == list_from(sa, from as int, list_default()),
        decreases args.len() - i,
    {
        let a = args[i].as_str();
        assert(sa[i as int] == a@);
        let has_next = i + 1 < args.len();
        if has_next {
            assert(sa[i + 1] == args@[i + 1]@);
        }
        if str_eq(a, "--status") {
            if !has_next {
                return Err("--status requires a value (done, pending, all)".to_string());
            }
            let v = args[i + 1].as_str();
            if str_eq(v, "done") {
                list.done = Some(true);
            } else if str_eq(v, "pending") {
                list.done = Some(false);
            } else if str_eq(v, "all") {
                list.status_all = true;
            } else {
                return Err(message3("invalid --status value: ", v, " (use done, pending, or all)"));
            }
            i = i + 2;
        } else if str_eq(a, "--tag") {
            if !has_next {
                return Err("--tag requires a value".to_string());
            }
            list.tag = Some(copy_string(&args[i + 1]));
            i = i + 2;
        } else if str_eq(a, "--due-before") {
            if !has_next {
                return Err("--due-before requires a date (YYYY-MM-DD)".to_string());
            }
            list.due_before = Some(copy_string(&args[i + 1]));
            i = i + 2;
        } else if str_eq(a, "--file") {
            if !has_next {
                return Err("--file requires a path".to_string());
            }
            list.file = Some(copy_string(&args[i + 1]));
            i = i + 2;
        } else if str_eq(a, "--folder") {
            if !has_next {
                return Err("--folder requires a path".to_string());
            }
            list.folder = Some(copy_string(&args[i + 1]));
            i = i + 2;
        } else if str_eq(a, "--db") {
            if !has_next {
                return Err("--db requires a path".to_string());
            }
            list.db = Some(copy_string(&args[i + 1]));
            i = i + 2;
        } else if str_eq(a, "--json") {
            list.json = true;
            i = i + 1;
        } else {
            match dash_count_of(a) {
                Some(n) => {
                    list.limit = Some(n);
                    i = i + 1;
                },
                None => {
                    return Err(message2("unknown list argument: ", a));
                },
            }
        }
    }
    Ok(list)
}

// ---------------------------------------------------------------------------
// Status and files
// ---------------------------------------------------------------------------

/// The query arguments after reading `args[i..]` onto `acc`.
pub open spec fn query_from(args: Seq<Seq<char>>, i: int, acc: QueryArgsV) -> Result<QueryArgsV, Seq<char>>
    decreases args.len() - i,
{
    if i < 0 || i >= args.len() {
        Ok(acc)
    } else if args[i] == "--db"@ {
        if i + 1 < args.len() {
            query_from(args, i + 2, QueryArgsV { db: Some(args[i + 1]), ..acc })
        } else {
            Err("--db requires a path"@)
        }
    } else if args[i] == "--json"@ {
        query_from(args, i + 1, QueryArgsV { json: true, ..acc })
    } else {
        Err("unknown argument: "@ + args[i])
    }
}

fn parse_query_args(args: &Vec<String>, from: usize) -> (r: Result<QueryArgs, String>)
    requires
        from <= args.len(),
    ensures
        match r {
            Ok(a) => query_from(strs(args@), from as int, QueryArgsV { db: None, json: false })
                == Ok::<QueryArgsV, Seq<char>>(QueryArgsV { db: ov(&a.db), json: a.json }),
            Err(e) => query_from(strs(args@), from as int, QueryArgsV { db: None, json: false })
                == Err::<QueryArgsV, Seq<char>>(e@),
        },
{
    let ghost sa = strs(args@);
    let mut db: Option<String> = None;
    let mut json = false;
    let mut i = from;
    while i < args.len()
        invariant
            from <= i <= args.len(),
            sa == strs(args@),
            query_from(sa, i as int, QueryArgsV { db: ov(&db), json })
                == query_from(sa, from as int, QueryArgsV { db: None, json: false }),
        decreases args.len() - i,
    {
        let a = args[i].as_str();
        assert(sa[i as int] == a@);
        if str_eq(a, "--db") {
            if i + 1 < args.len() {
                assert(sa[i + 1] == args@[i + 1]@);
                db = Some(copy_string(&args[i + 1]));
                i = i + 2;
            } else {
                return Err("--db requires a path".to_string());
            }
        } else if str_eq(a, "--json") {
            json = true;
            i = i + 1;
        } else {
            return Err(message2("unknown argument: ", a));
        }
    }
    Ok(QueryArgs { db, json })
}

// ---------------------------------------------------------------------------
// Commands
// ---------------------------------------------------------------------------

fn first_is(args: &Vec<String>, name: &str) -> (b: bool)
    ensures
        b == (args.len() > 0 && args@[0]@ == name@),
{
    args.len() > 0 && str_eq(args[0].as_str(), name)
}

/// The command of an argument list (without the program name): the first
/// argument names `watch`, `list`, `status` or `files`, whose arguments
/// follow; anything else evaluates a file.
pub open spec fn command_spec(args: Seq<Seq<char>>) -> Result<CommandV, Seq<char>> {
    let first = if args.len() > 0 { Some(args[0]) } else { None };
    if first == Some("watch"@) {
        match watch_from(args, 1, WatchArgsV { path: None, config: None }) {
            Ok(w) => Ok(CommandV::Watch(w)),
            Err(e) => Err(e),
        }
    } else if first == Some("list"@) {
        match list_from(args, 1, list_default()) {
            Ok(l) => Ok(CommandV::List(l)),
            Err(e) => Err(e),
        }
    } else if first == Some("status"@) {
        match query_from(args, 1, QueryArgsV { db: None, json: false }) {
            Ok(q) => Ok(CommandV::Status(q)),
            Err(e) => Err(e),
        }
    } else if first == Some("files"@) {
        match query_from(args, 1, QueryArgsV { db: None, json: false }) {
            Ok(q) => Ok(CommandV::Files(q)),
            Err(e) => Err(e),
        }
    } else {
        match eval_args_spec(args) {
            Ok(e) => Ok(CommandV::Eval(e)),
            Err(e) => Err(e),
        }
    }
}

/// Parses the arguments (without the program name) into a command.
///
/// Returns `Err` with a message, or the usage text, when the arguments are
/// invalid or incomplete.
pub fn parse_args(args: &Vec<String>) -> (r: Result<Command, String>)
    ensures
        match r {
            Ok(c) => command_spec(strs(args@)) == Ok::<CommandV, Seq<char>>(c@),
            Err(e) => command_spec(strs(args@)) == Err::<CommandV, Seq<char>>(e@),
        },
{
    let ghost sa = strs(args@);
    if args.len() > 0 {
        assert(sa[0] == args@[0]@);
    }
    if first_is(args, "watch") {
        match parse_watch_args(args, 1) {
            Ok(w) => Ok(Command::Watch(w)),
            Err(e) => Err(e),
        }
    } else if first_is(args, "list") {
        match parse_list_args(args, 1) {
            Ok(l) => Ok(Command::List(l)),
            Err(e) => Err(e),
        }
    } else if first_is(args, "status") {
        match parse_query_args(args, 1) {
            Ok(q) => Ok(Command::Status(q)),
            Err(e) => Err(e),
        }
    } else if first_is(args, "files") {
        match parse_query_args(args, 1) {
            Ok(q) => Ok(Command::Files(q)),
            Err(e) => Err(e),
        }
    } else {
        match parse_eval_args(args) {
            Ok(a) => Ok(Command::Eval(a)),
            Err(e) => Err(e),
        }
    }
}

}
