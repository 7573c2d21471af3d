//! Write-back: targeted text edits of tasks in `.typ` files.
//!
//! A task is the first list item (in syntax-tree order) whose text holds
//! `#id("<task id>")`.  Every edit replaces that item's text and keeps the
//! rest of the file as it was.

use vstd::prelude::*;
use crate::text::{
    byte_pos, byte_to_char, char_at_byte, char_to_byte, utf8_len, chars_of, find_first, find_from, find_in, has_prefix, lemma_find_from, matches_at,
    push_char, push_chars, push_range, push_str, push_i64, push_u64, dec_int, dec_nat,
    str_eq, string_of, starts_with, slice_vec, digits_value, all_digits, is_digit,
    lemma_digits_value_prefix, skip_ws, is_ws, leading_ws, parse_bounded, parse_bounded_spec,
};

verus! {

broadcast use vstd::string::group_string_axioms;

// ---------------------------------------------------------------------------
// Source text and errors
// ---------------------------------------------------------------------------

/// The text of a `.typ` file.
#[derive(Debug, Clone, PartialEq)]
pub struct Source {
    text: String,
}

impl View for Source {
    type V = Seq<char>;

    closed spec fn view(&self) -> Seq<char> {
        self.text@
    }
}

impl Source {
    /// A source holding `text`.
    pub fn detached(text: &str) -> (s: Source)
        ensures
            s@ == text@,
    {
        Source { text: text.to_string() }
    }

    /// The source text.
    pub fn text(&self) -> (t: &str)
        ensures
            t@ == self@,
    {
        self.text.as_str()
    }
}

/// Errors that can occur during write-back operations.
#[derive(Debug, Clone, PartialEq)]
pub enum WriteError {
    /// The source file could not be read.
    File(String),
    /// The task ID was not found in the file.
    TaskNotFound(String),
    /// The task node is malformed or cannot be modified.
    InvalidTask(String),
    /// A date string could not be parsed.
    InvalidDate(String),
}

/// The plain-value form of a [`WriteError`].
pub enum WriteErrV {
    File(Seq<char>),
    TaskNotFound(Seq<char>),
    InvalidTask(Seq<char>),
    InvalidDate(Seq<char>),
}

impl View for WriteError {
    type V = WriteErrV;

    open spec fn view(&self) -> WriteErrV {
        match self {
            WriteError::File(s) => WriteErrV::File(s@),
            WriteError::TaskNotFound(s) => WriteErrV::TaskNotFound(s@),
            WriteError::InvalidTask(s) => WriteErrV::InvalidTask(s@),
            WriteError::InvalidDate(s) => WriteErrV::InvalidDate(s@),
        }
    }
}

impl WriteError {
    /// The error's message, as its `Display` form would print it.
    pub fn message(&self) -> (r: String)
        ensures
            r@ == write_error_message(self@),
    {
        let mut r = String::new();
        match self {
            WriteError::File(s) => {
                push_str(&mut r, "file read error: ");
                push_str(&mut r, s.as_str());
            },
            WriteError::TaskNotFound(s) => {
                push_str(&mut r, "task not found: ");
                push_str(&mut r, s.as_str());
            },
            WriteError::InvalidTask(s) => {
                push_str(&mut r, "invalid task structure: ");
                push_str(&mut r, s.as_str());
            },
            WriteError::InvalidDate(s) => {
                push_str(&mut r, "invalid date: ");
                push_str(&mut r, s.as_str());
            },
        }
        r
    }
}

/// The message of a write error.
pub open spec fn write_error_message(e: WriteErrV) -> Seq<char> {
    match e {
        WriteErrV::File(s) => "file read error: "@ + s,
        WriteErrV::TaskNotFound(s) => "task not found: "@ + s,
        WriteErrV::InvalidTask(s) => "invalid task structure: "@ + s,
        WriteErrV::InvalidDate(s) => "invalid date: "@ + s,
    }
}

/// A text result as plain values.
pub open spec fn wres(r: &Result<String, WriteError>) -> Result<Seq<char>, WriteErrV> {
    match r {
        Ok(s) => Ok(s@),
        Err(e) => Err(e@),
    }
}

// ---------------------------------------------------------------------------
// Syntax tree
// ---------------------------------------------------------------------------

#[verifier::external_type_specification]
#[verifier::external_body]
pub struct ExSyntaxNode(typst_syntax::SyntaxNode);

/// A node of a Typst syntax tree: the name of its kind, its length in
/// bytes, and its children in order.
pub struct SyntaxTree {
    pub kind: String,
    pub len: usize,
    pub children: Vec<SyntaxTree>,
}

/// What the `typst-syntax` parser gives for a text: its syntax tree, node
/// for node.
pub uninterp spec fn typst_tree(text: Seq<char>) -> SyntaxTree;

/// Converts a `typst_syntax::SyntaxNode` node for node: the kind's name
/// (`SyntaxKind::name`), the byte length (`SyntaxNode::len`) and the
/// children (`SyntaxNode::children`), each converted the same way.
/// Trusted; it states nothing of its own.
#[verifier::external_body]
fn syntax_tree_of(node: &typst_syntax::SyntaxNode) -> (r: SyntaxTree) {
    SyntaxTree {
        kind: node.kind().name().to_string(),
        len: node.len(),
        children: node.children().map(syntax_tree_of).collect(),
    }
}

/// Parses `text` with `typst_syntax::Source::detached` and converts the
/// root of the tree.  Trusted: the result is the named `typst_tree`.
#[verifier::external_body]
fn parse_tree(text: &str) -> (r: SyntaxTree)
    ensures
        r == typst_tree(text@),
{
    syntax_tree_of(typst_syntax::Source::detached(text).root())
}

/// `a + b`, or `usize::MAX` where that does not fit.
pub open spec fn sat_add(a: int, b: int) -> int {
    if a + b > usize::MAX {
        usize::MAX as int
    } else {
        a + b
    }
}

fn sat_add_exec(a: usize, b: usize) -> (r: usize)
    ensures
        r == sat_add(a as int, b as int),
{
    if a > usize::MAX - b {
        usize::MAX
    } else {
        a + b
    }
}

/// The nodes of a tree that starts at byte `off`, in depth-first
/// pre-order, as (kind, first byte, end byte); each child starts where the
/// one before it ends, the first where its parent starts.
pub open spec fn preorder_bytes(t: SyntaxTree, off: int) -> Seq<(Seq<char>, int, int)>
    decreases t, t.children@.len() + 1,
{
    seq![(t.kind@, off, sat_add(off, t.len as int))] + children_bytes(t, 0, off)
}

/// The pre-order nodes of the children of `t` from child `k` on, child `k`
/// starting at byte `off`.
pub open spec fn children_bytes(t: SyntaxTree, k: int, off: int) -> Seq<(Seq<char>, int, int)>
    decreases t, t.children@.len() - k,
    when 0 <= k
{
    if 0 <= k < t.children@.len() {
        preorder_bytes(t.children@[k], off) + children_bytes(
            t,
            k + 1,
            sat_add(off, t.children@[k].len as int),
        )
    } else {
        Seq::empty()
    }
}

/// The plain form of a list of nodes.
pub open spec fn nodes_view(v: Seq<(String, usize, usize)>) -> Seq<(Seq<char>, int, int)> {
    v.map_values(|n: (String, usize, usize)| (n.0@, n.1 as int, n.2 as int))
}

fn push_preorder(t: &SyntaxTree, off: usize, out: &mut Vec<(String, usize, usize)>)
    ensures
        nodes_view(final(out)@) == nodes_view(old(out)@) + preorder_bytes(*t, off as int),
    decreases t,
{
    let ghost start = nodes_view(out@);
    let end = sat_add_exec(off, t.len);
    let ghost before = out@;
    out.push((t.kind.clone(), off, end));
    proof {
        assert(out@ == before.push((t.kind, off, end)));
        assert(nodes_view(out@) =~= start.push((t.kind@, off as int, end as int)));
    }
    let mut k: usize = 0;
    let mut o: usize = off;
    while k < t.children.len()
        invariant
            k <= t.children.len(),
            nodes_view(out@) + children_bytes(*t, k as int, o as int) == start + preorder_bytes(
                *t,
                off as int,
            ),
        decreases t.children.len() - k,
    {
        let c = &t.children[k];
        let ghost mid = nodes_view(out@);
        push_preorder(c, o, out);
        proof {
            assert(children_bytes(*t, k as int, o as int) == preorder_bytes(t.children@[k as int], o as int)
                + children_bytes(*t, k + 1, sat_add(o as int, c.len as int)));
            assert(nodes_view(out@) + children_bytes(*t, k + 1, sat_add(o as int, c.len as int)) =~= mid
                + children_bytes(*t, k as int, o as int));
        }
        o = sat_add_exec(o, c.len);
        k = k + 1;
    }
    proof {
        assert(children_bytes(*t, k as int, o as int) =~= Seq::<(Seq<char>, int, int)>::empty());
        assert(nodes_view(out@) =~= nodes_view(out@) + children_bytes(*t, k as int, o as int));
    }
}

/// The nodes of a syntax tree in depth-first pre-order, with their byte
/// ranges, the root starting at byte 0.
pub fn preorder_nodes(t: &SyntaxTree) -> (r: Vec<(String, usize, usize)>)
    ensures
        nodes_view(r@) == preorder_bytes(*t, 0),
{
    let mut out: Vec<(String, usize, usize)> = Vec::new();
    push_preorder(t, 0, &mut out);
    assert(nodes_view(out@) =~= Seq::<(Seq<char>, int, int)>::empty() + preorder_bytes(*t, 0));
    out
}

/// The character spans of the list items among the nodes of `text`, in
/// order: the nodes of kind "list item" whose byte range starts and ends
/// at a character (or the end of the text).
pub open spec fn item_spans(text: Seq<char>, nodes: Seq<(Seq<char>, int, int)>) -> Seq<(int, int)>
    decreases nodes.len(),
{
    if nodes.len() == 0 {
        Seq::empty()
    } else {
        let prev = item_spans(text, nodes.drop_last());
        let n = nodes.last();
        if n.0 == "list item"@ && char_at_byte(text, n.1) is Some && char_at_byte(text, n.2) is Some {
            prev.push((char_at_byte(text, n.1)->Some_0, char_at_byte(text, n.2)->Some_0))
        } else {
            prev
        }
    }
}

/// The plain form of a list of spans.
pub open spec fn spans_view(v: Seq<(usize, usize)>) -> Seq<(int, int)> {
    v.map_values(|p: (usize, usize)| (p.0 as int, p.1 as int))
}

/// The character spans of the list items among pre-order nodes of `text`.
pub fn list_item_spans(text: &Vec<char>, nodes: &Vec<(String, usize, usize)>) -> (r: Vec<(usize, usize)>)
    ensures
        spans_view(r@) == item_spans(text@, nodes_view(nodes@)),
        forall|i: int| 0 <= i < r.len() ==> (#[trigger] r@[i]).0 <= text.len() && r@[i].1 <= text.len(),
{
    let ghost nv = nodes_view(nodes@);
    let mut r: Vec<(usize, usize)> = Vec::new();
    let mut i: usize = 0;
    while i < nodes.len()
        invariant
            i <= nodes.len(),
            nv == nodes_view(nodes@),
            spans_view(r@) == item_spans(text@, nv.take(i as int)),
            forall|k: int| 0 <= k < r.len() ==> (#[trigger] r@[k]).0 <= text.len() && r@[k].1 <= text.len(),
        decreases nodes.len() - i,
    {
        let n = &nodes[i];
        proof {
            assert(nv.take(i + 1).drop_last() =~= nv.take(i as int));
            assert(nv.take(i + 1).last() == nv[i as int]);
            reveal_strlit("list item");
        }
        if str_eq(n.0.as_str(), "list item") {
            match (byte_to_char(text, n.1), byte_to_char(text, n.2)) {
                (Some(s), Some(e)) => {
                    let ghost before = r@;
                    r.push((s, e));
                    proof {
                        assert(r@ == before.push((s, e)));
                        assert(spans_view(r@) =~= spans_view(before).push((s as int, e as int)));
                    }
                },
                _ => {},
            }
        }
        i = i + 1;
    }
    assert(nv.take(nodes.len() as int) =~= nv);
    r
}

/// The list-item spans of a text, as the parser finds them.
pub open spec fn task_nodes(text: Seq<char>) -> Seq<(int, int)> {
    item_spans(text, preorder_bytes(typst_tree(text), 0))
}

// ---------------------------------------------------------------------------
// Task lookup
// ---------------------------------------------------------------------------

/// The task ID in a text holding `#id("...")`: the characters after the
/// first `#id("` up to the next `")`.
pub open spec fn extract_id_spec(t: Seq<char>) -> Option<Seq<char>> {
    match find_first(t, "#id(\""@) {
        None => None,
        Some(st) => {
            let is = st + "#id(\""@.len();
            match find_first(t.subrange(is, t.len() as int), "\")"@) {
                None => None,
                Some(e) => Some(t.subrange(is, is + e)),
            }
        },
    }
}

/// Extracts the task ID from a text containing `#id("...")`.
pub fn extract_id_from_text(text: &str) -> (r: Option<String>)
    ensures
        r matches Some(s) ==> extract_id_spec(text@) == Some(s@),
        r is None ==> extract_id_spec(text@) is None,
{
    let v = chars_of(text);
    match extract_id_chars(&v) {
        Some(id) => Some(string_of(&id)),
        None => None,
    }
}

fn extract_id_chars(v: &Vec<char>) -> (r: Option<Vec<char>>)
    ensures
        r matches Some(s) ==> extract_id_spec(v@) == Some(s@),
        r is None ==> extract_id_spec(v@) is None,
{
    let prefix = chars_of("#id(\"");
    let suffix = chars_of("\")");
    match find_in(v, &prefix, 0) {
        None => None,
        Some(st) => {
            proof {
                lemma_find_from(v@, prefix@, 0);
                assert(find_from(v@, prefix@, 0) == Some(st as int));
                assert(matches_at(v@, prefix@, st as int));
                assert(st + prefix@.len() <= v@.len());
            }
            assert(st + prefix.len() <= v.len());
            let is = st + prefix.len();
            let rest = slice_vec(v, is, v.len());
            match find_in(&rest, &suffix, 0) {
                None => None,
                Some(e) => {
                    proof {
                        lemma_find_from(rest@, suffix@, 0);
                    }
                    Some(slice_vec(v, is, is + e))
                },
            }
        },
    }
}

/// The first list-item span (in tree order), from the `i`-th on, whose text
/// names `id`.
pub open spec fn task_span_from(text: Seq<char>, spans: Seq<(int, int)>, id: Seq<char>, i: int) -> Option<
    (int, int),
>
    decreases spans.len() - i,
{
    if i < 0 || i >= spans.len() {
        None
    } else {
        let (s, e) = spans[i];
        if 0 <= s <= e <= text.len() && extract_id_spec(text.subrange(s, e)) == Some(id) {
            Some((s, e))
        } else {
            task_span_from(text, spans, id, i + 1)
        }
    }
}

/// The span of the task named `id` in `text`.
pub open spec fn task_span(text: Seq<char>, id: Seq<char>) -> Option<(int, int)> {
    task_span_from(text, task_nodes(text), id, 0)
}

/// The first of `spans` whose text names the task `task_id`.
pub fn find_item_with_id(text: &Vec<char>, spans: &Vec<(usize, usize)>, task_id: &str) -> (r: Option<
    (usize, usize),
>)
    ensures
        r matches Some((s, e)) ==> task_span_from(text@, spans_view(spans@), task_id@, 0) == Some(
            (s as int, e as int),
        ),
        r is None ==> task_span_from(text@, spans_view(spans@), task_id@, 0) is None,
{
    let ghost sv = spans_view(spans@);
    let id = chars_of(task_id);
    let mut i: usize = 0;
    while i < spans.len()
        invariant
            i <= spans.len(),
            sv == spans_view(spans@),
            task_span_from(text@, sv, id@, i as int) == task_span_from(text@, sv, task_id@, 0),
            id@ == task_id@,
        decreases spans.len() - i,
    {
        let (s, e) = spans[i];
        assert(sv[i as int] == (s as int, e as int));
        if s <= e && e <= text.len() {
            let sub = slice_vec(text, s, e);
            match extract_id_chars(&sub) {
                Some(found) => {
                    if crate::text::chars_eq(&found, &id) {
                        return Some((s, e));
                    }
                },
                None => {},
            }
        }
        i = i + 1;
    }
    None
}

/// Finds the character span of the list item of the task named `task_id`.
pub fn find_task_node(text: &Vec<char>, task_id: &str) -> (r: Option<(usize, usize)>)
    ensures
        r matches Some((s, e)) ==> task_span(text@, task_id@) == Some((s as int, e as int)),
        r matches Some((s, e)) ==> s <= e <= text@.len(),
        r is None ==> task_span(text@, task_id@) is None,
{
    let t = string_of(text);
    let tree = parse_tree(t.as_str());
    let nodes = preorder_nodes(&tree);
    let spans = list_item_spans(text, &nodes);
    let r = find_item_with_id(text, &spans, task_id);
    proof {
        lemma_task_span_bounds(text@, spans_view(spans@), task_id@, 0);
    }
    r
}


// ---------------------------------------------------------------------------
// Spans of properties inside a task's text
// ---------------------------------------------------------------------------

/// `t` with its first occurrence of `old` replaced by `new`
/// (`str::replacen(old, new, 1)`).
pub open spec fn replacen_spec(t: Seq<char>, old: Seq<char>, new: Seq<char>) -> Seq<char> {
    match find_first(t, old) {
        Some(i) => t.take(i) + new + t.skip(i + old.len()),
        None => t,
    }
}

/// The index of the `)` closing the parenthesis group that is open at
/// depth `depth` when scanning reaches index `i`.
pub open spec fn scan_paren(t: Seq<char>, i: int, depth: int) -> Option<int>
    decreases t.len() - i,
{
    if i < 0 || i >= t.len() {
        None
    } else if t[i] == '(' {
        scan_paren(t, i + 1, depth + 1)
    } else if t[i] == ')' {
        if depth == 1 {
            Some(i)
        } else {
            scan_paren(t, i + 1, depth - 1)
        }
    } else {
        scan_paren(t, i + 1, depth)
    }
}

/// The index of the `)` matching the `(` at `open`.
pub open spec fn matching_paren_spec(t: Seq<char>, open: int) -> Option<int> {
    if 0 <= open < t.len() && t[open] == '(' {
        scan_paren(t, open + 1, 1)
    } else {
        None
    }
}

proof fn lemma_scan_paren(t: Seq<char>, i: int, depth: int)
    ensures
        scan_paren(t, i, depth) matches Some(j) ==> i <= j < t.len() && 0 <= j,
    decreases t.len() - i,
{
    if i >= 0 && i < t.len() {
        if t[i] == '(' {
            lemma_scan_paren(t, i + 1, depth + 1);
        } else if t[i] == ')' {
            if depth != 1 {
                lemma_scan_paren(t, i + 1, depth - 1);
            }
        } else {
            lemma_scan_paren(t, i + 1, depth);
        }
    }
}

/// A character span taken to byte offsets.
pub open spec fn byte_span(t: Seq<char>, span: Option<(int, int)>) -> Option<(int, int)> {
    match span {
        Some((s, e)) => Some((byte_pos(t, s) as int, byte_pos(t, e) as int)),
        None => None,
    }
}

/// The byte offset of the `)` matching the `(` at byte offset `open`.
pub open spec fn matching_paren_bytes(t: Seq<char>, open: int) -> Option<int> {
    match char_at_byte(t, open) {
        Some(c) => match matching_paren_spec(t, c) {
            Some(j) => Some(byte_pos(t, j) as int),
            None => None,
        },
        None => None,
    }
}

fn byte_span_of(v: &Vec<char>, span: Option<(usize, usize)>) -> (r: Option<(usize, usize)>)
    requires
        utf8_len(v@) <= usize::MAX,
        span matches Some((s, e)) ==> s <= e <= v.len(),
    ensures
        r matches Some((a, b)) ==> byte_span(v@, match span {
            Some((s, e)) => Some((s as int, e as int)),
            None => None,
        }) == Some((a as int, b as int)),
        r is None <==> span is None,
{
    match span {
        Some((s, e)) => Some((char_to_byte(v, s), char_to_byte(v, e))),
        None => None,
    }
}

/// Finds the byte offset of the closing `)` that matches the `(` at byte
/// offset `open`.
///
/// Returns `None` if the byte at `open` is not `(` or the parentheses are
/// unbalanced.  (A `(` or `)` byte is always a whole character in UTF-8.)
pub fn find_matching_paren(text: &str, open: usize) -> (r: Option<usize>)
    requires
        utf8_len(text@) <= usize::MAX,
    ensures
        r matches Some(j) ==> matching_paren_bytes(text@, open as int) == Some(j as int),
        r is None ==> matching_paren_bytes(text@, open as int) is None,
{
    let v = chars_of(text);
    match byte_to_char(&v, open) {
        None => None,
        Some(c) => match matching_paren_in(&v, c) {
            Some(j) => {
                proof {
                    lemma_scan_paren(v@, c + 1, 1);
                }
                Some(char_to_byte(&v, j))
            },
            None => None,
        },
    }
}

fn matching_paren_in(v: &Vec<char>, open: usize) -> (r: Option<usize>)
    ensures
        r matches Some(j) ==> matching_paren_spec(v@, open as int) == Some(j as int),
        r is None ==> matching_paren_spec(v@, open as int) is None,
{
    if open >= v.len() || v[open] != '(' {
        return None;
    }
    let mut depth: usize = 1;
    let mut i = open + 1;
    while i < v.len()
        invariant
            open < i <= v.len(),
            1 <= depth <= i - open,
            matching_paren_spec(v@, open as int) == scan_paren(v@, i as int, depth as int),
        decreases v.len() - i,
    {
        let c = v[i];
        if c == '(' {
            depth = depth + 1;
        } else if c == ')' {
            if depth == 1 {
                proof {
                    lemma_scan_paren(v@, i as int, 1);
                }
                return Some(i);
            }
            depth = depth - 1;
        }
        i = i + 1;
    }
    None
}

/// The span of the first `prefix...(...)` call in `t`, up to its matching
/// `)`.
pub open spec fn call_span(t: Seq<char>, prefix: Seq<char>) -> Option<(int, int)> {
    match find_first(t, prefix) {
        None => None,
        Some(s) => match matching_paren_spec(t, s + prefix.len() - 1) {
            Some(e) => Some((s, e + 1)),
            None => None,
        },
    }
}

/// The span of `#due(...)`.
pub open spec fn due_span(t: Seq<char>) -> Option<(int, int)> {
    call_span(t, "#due("@)
}

/// The span of `#start(...)`.
pub open spec fn start_span(t: Seq<char>) -> Option<(int, int)> {
    call_span(t, "#start("@)
}

/// The span of the first occurrence of `word`.
pub open spec fn word_span(t: Seq<char>, word: Seq<char>) -> Option<(int, int)> {
    match find_first(t, word) {
        Some(s) => Some((s, s + word.len())),
        None => None,
    }
}

/// The span of the rank: `#rank(...)` if present, else the first of the
/// aliases `#high`, `#medium`, `#low` that occurs.
pub open spec fn rank_span(t: Seq<char>) -> Option<(int, int)> {
    match call_span(t, "#rank("@) {
        Some(x) => Some(x),
        None => match word_span(t, "#high"@) {
            Some(x) => Some(x),
            None => match word_span(t, "#medium"@) {
                Some(x) => Some(x),
                None => word_span(t, "#low"@),
            },
        },
    }
}

/// The text of a tag call.
pub open spec fn tag_call(tag: Seq<char>) -> Seq<char> {
    "#tag(\""@ + tag + "\")"@
}

/// The span of `#tag("<tag>")`.
pub open spec fn tag_span(t: Seq<char>, tag: Seq<char>) -> Option<(int, int)> {
    word_span(t, tag_call(tag))
}

/// Where new properties go: just before `#id("`.
pub open spec fn insert_point(t: Seq<char>) -> Option<int> {
    find_first(t, "#id(\""@)
}

/// A removal span widened over one preceding space.
pub open spec fn trim_leading_space_spec(t: Seq<char>, s: int, e: int) -> (int, int) {
    if s > 0 && s - 1 < t.len() && t[s - 1] == ' ' {
        (s - 1, e)
    } else {
        (s, e)
    }
}

fn span_result(r: Option<(usize, usize)>) -> (o: Option<(usize, usize)>)
    ensures
        o == r,
{
    r
}

fn call_span_in(v: &Vec<char>, prefix: &str) -> (r: Option<(usize, usize)>)
    requires
        prefix@.len() > 0,
    ensures
        r matches Some((s, e)) ==> call_span(v@, prefix@) == Some((s as int, e as int)) && s < e <= v.len(),
        r is None ==> call_span(v@, prefix@) is None,
{
    let p = chars_of(prefix);
    match find_in(v, &p, 0) {
        None => None,
        Some(s) => {
            proof {
                lemma_find_from(v@, p@, 0);
            }
            assert(s + p.len() <= v.len());
            match matching_paren_in(v, s + p.len() - 1) {
                Some(e) => {
                    proof {
                        lemma_scan_paren(v@, s + p.len() as int, 1);
                    }
                    Some((s, e + 1))
                },
                None => None,
            }
        },
    }
}

fn word_span_in(v: &Vec<char>, word: &Vec<char>) -> (r: Option<(usize, usize)>)
    ensures
        r matches Some((s, e)) ==> word_span(v@, word@) == Some((s as int, e as int)) && s <= e <= v.len(),
        r is None ==> word_span(v@, word@) is None,
{
    match find_in(v, word, 0) {
        None => None,
        Some(s) => {
            proof {
                lemma_find_from(v@, word@, 0);
            }
            assert(s + word.len() <= v.len());
            Some((s, s + word.len()))
        },
    }
}

/// Finds the span of `#due(...)` in `text`, matching nested parentheses.
pub fn find_due_span(text: &str) -> (r: Option<(usize, usize)>)
    requires
        utf8_len(text@) <= usize::MAX,
    ensures
        r matches Some((s, e)) ==> byte_span(text@, due_span(text@)) == Some((s as int, e as int)),
        r is None ==> due_span(text@) is None,
{
    proof { reveal_strlit("#due("); }
    let v = chars_of(text);
    byte_span_of(&v, call_span_in(&v, "#due("))
}

/// Finds the span of `#start(...)` in `text`.
pub fn find_start_span(text: &str) -> (r: Option<(usize, usize)>)
    requires
        utf8_len(text@) <= usize::MAX,
    ensures
        r matches Some((s, e)) ==> byte_span(text@, start_span(text@)) == Some((s as int, e as int)),
        r is None ==> start_span(text@) is None,
{
    proof { reveal_strlit("#start("); }
    let v = chars_of(text);
    byte_span_of(&v, call_span_in(&v, "#start("))
}

fn rank_span_in(v: &Vec<char>) -> (r: Option<(usize, usize)>)
    ensures
        r matches Some((s, e)) ==> rank_span(v@) == Some((s as int, e as int)) && s <= e <= v.len(),
        r is None ==> rank_span(v@) is None,
{
    proof { reveal_strlit("#rank("); }
    match call_span_in(v, "#rank(") {
        Some(x) => Some(x),
        None => match word_span_in(v, &chars_of("#high")) {
            Some(x) => Some(x),
            None => match word_span_in(v, &chars_of("#medium")) {
                Some(x) => Some(x),
                None => word_span_in(v, &chars_of("#low")),
            },
        },
    }
}

/// Finds the span of the task's rank: `#rank(...)`, or else one of the
/// aliases `#high`, `#medium`, `#low`.
pub fn find_rank_span(text: &str) -> (r: Option<(usize, usize)>)
    requires
        utf8_len(text@) <= usize::MAX,
    ensures
        r matches Some((s, e)) ==> byte_span(text@, rank_span(text@)) == Some((s as int, e as int)),
        r is None ==> rank_span(text@) is None,
{
    let v = chars_of(text);
    byte_span_of(&v, rank_span_in(&v))
}

fn tag_call_chars(tag: &str) -> (r: Vec<char>)
    ensures
        r@ == tag_call(tag@),
{
    let mut s = String::new();
    push_str(&mut s, "#tag(\"");
    push_str(&mut s, tag);
    push_str(&mut s, "\")");
    chars_of(s.as_str())
}

/// Finds the span of `#tag("<tag>")` for a specific tag value.
pub fn find_tag_span(text: &str, tag: &str) -> (r: Option<(usize, usize)>)
    requires
        utf8_len(text@) <= usize::MAX,
    ensures
        r matches Some((s, e)) ==> byte_span(text@, tag_span(text@, tag@)) == Some((s as int, e as int)),
        r is None ==> tag_span(text@, tag@) is None,
{
    let v = chars_of(text);
    byte_span_of(&v, word_span_in(&v, &tag_call_chars(tag)))
}

fn insert_point_in(v: &Vec<char>) -> (r: Option<usize>)
    ensures
        r matches Some(i) ==> insert_point(v@) == Some(i as int) && i <= v.len(),
        r is None ==> insert_point(v@) is None,
{
    let p = chars_of("#id(\"");
    let r = find_in(v, &p, 0);
    proof {
        lemma_find_from(v@, p@, 0);
    }
    r
}

/// The offset just before `#id("...")`, where new properties are inserted.
pub fn find_property_insert_point(text: &str) -> (r: Option<usize>)
    requires
        utf8_len(text@) <= usize::MAX,
    ensures
        r matches Some(i) ==> (insert_point(text@) matches Some(c) && i == byte_pos(text@, c)),
        r is None ==> insert_point(text@) is None,
{
    let v = chars_of(text);
    match insert_point_in(&v) {
        Some(c) => Some(char_to_byte(&v, c)),
        None => None,
    }
}

/// A removal span in bytes widened over one preceding space: the byte
/// before `start` is a space exactly when `start` begins a character
/// (other than the first) and the character before it is a space.
pub open spec fn trim_leading_space_bytes(t: Seq<char>, start: int, end: int) -> (int, int) {
    if start > 0 && (char_at_byte(t, start) matches Some(c) && c > 0 && t[c - 1] == ' ') {
        (start - 1, end)
    } else {
        (start, end)
    }
}

/// Widens a removal span (byte offsets) over one preceding space, so that
/// removing it leaves no double space.
pub fn trim_leading_space(text: &str, start: usize, end: usize) -> (r: (usize, usize))
    requires
        utf8_len(text@) <= usize::MAX,
    ensures
        r == ({
            let (a, b) = trim_leading_space_bytes(text@, start as int, end as int);
            (a as usize, b as usize)
        }),
{
    let v = chars_of(text);
    if start > 0 {
        match byte_to_char(&v, start) {
            Some(c) => {
                if c > 0 && v[c - 1] == ' ' {
                    return (start - 1, end);
                }
            },
            None => {},
        }
    }
    (start, end)
}

fn trim_space_in(v: &Vec<char>, start: usize, end: usize) -> (r: (usize, usize))
    ensures
        r == ({
            let (a, b) = trim_leading_space_spec(v@, start as int, end as int);
            (a as usize, b as usize)
        }),
        r.0 == start || r.0 == start - 1,
        r.1 == end,
{
    if start > 0 && start - 1 < v.len() && v[start - 1] == ' ' {
        (start - 1, end)
    } else {
        (start, end)
    }
}


// ---------------------------------------------------------------------------
// Dates
// ---------------------------------------------------------------------------

/// The three `-`-separated parts of a text that has exactly two `-`.
pub open spec fn date_parts(s: Seq<char>) -> Option<(Seq<char>, Seq<char>, Seq<char>)> {
    match find_first(s, "-"@) {
        None => None,
        Some(a) => match find_from(s, "-"@, a + 1) {
            None => None,
            Some(b) => if find_from(s, "-"@, b + 1) is None {
                Some((s.take(a), s.subrange(a + 1, b), s.skip(b + 1)))
            } else {
                None
            },
        },
    }
}

/// The Typst date arguments (`Y, M, D`) of a `YYYY-MM-DD` text.
pub open spec fn date_args_spec(s: Seq<char>) -> Result<Seq<char>, WriteErrV> {
    let quoted = "\""@ + s + "\""@;
    match date_parts(s) {
        None => Err(WriteErrV::InvalidDate("expected YYYY-MM-DD, got "@ + quoted)),
        Some((y, m, d)) => match parse_bounded_spec(y, i32::MAX as nat) {
            None => Err(WriteErrV::InvalidDate("invalid year in "@ + quoted)),
            Some(yv) => match parse_bounded_spec(m, u32::MAX as nat) {
                None => Err(WriteErrV::InvalidDate("invalid month in "@ + quoted)),
                Some(mv) => match parse_bounded_spec(d, u32::MAX as nat) {
                    None => Err(WriteErrV::InvalidDate("invalid day in "@ + quoted)),
                    Some(dv) => if !(1 <= mv <= 12) {
                        Err(WriteErrV::InvalidDate("month "@ + dec_nat(mv) + " out of range 1..12"@))
                    } else if !(1 <= dv <= 31) {
                        Err(WriteErrV::InvalidDate("day "@ + dec_nat(dv) + " out of range 1..31"@))
                    } else {
                        Ok(dec_nat(yv) + ", "@ + dec_nat(mv) + ", "@ + dec_nat(dv))
                    },
                },
            },
        },
    }
}

fn date_error(a: &str, date: &str, b: &str) -> (e: WriteError)
    ensures
        e@ == WriteErrV::InvalidDate(a@ + (b@ + date@ + b@)),
{
    let mut m = String::new();
    push_str(&mut m, a);
    push_str(&mut m, b);
    push_str(&mut m, date);
    push_str(&mut m, b);
    proof {
        assert(a@ + b@ + date@ + b@ =~= a@ + (b@ + date@ + b@));
    }
    WriteError::InvalidDate(m)
}

fn range_error(a: &str, v: u64, b: &str) -> (e: WriteError)
    ensures
        e@ == WriteErrV::InvalidDate(a@ + dec_nat(v as nat) + b@),
{
    let mut m = String::new();
    push_str(&mut m, a);
    push_u64(&mut m, v);
    push_str(&mut m, b);
    WriteError::InvalidDate(m)
}

/// Parses an ISO date (`YYYY-MM-DD`) into Typst date arguments
/// (`Y, M, D`, without leading zeros).
pub fn format_typst_date_args(date_str: &str) -> (r: Result<String, WriteError>)
    ensures
        wres(&r) == date_args_spec(date_str@),
{
    let v = chars_of(date_str);
    let dash = chars_of("-");
    proof {
        reveal_strlit("-");
        assert(dash@.len() == 1);
    }
    let a = match find_in(&v, &dash, 0) {
        Some(a) => a,
        None => {
            return Err(date_error("expected YYYY-MM-DD, got ", date_str, "\""));
        },
    };
    proof {
        lemma_find_from(v@, dash@, 0);
        assert(a < v.len());
    }
    let b = match find_in(&v, &dash, a + 1) {
        Some(b) => b,
        None => {
            return Err(date_error("expected YYYY-MM-DD, got ", date_str, "\""));
        },
    };
    proof {
        lemma_find_from(v@, dash@, a + 1);
    }
    if find_in(&v, &dash, b + 1).is_some() {
        return Err(date_error("expected YYYY-MM-DD, got ", date_str, "\""));
    }
    let ys = slice_vec(&v, 0, a);
    let ms = slice_vec(&v, a + 1, b);
    let ds = slice_vec(&v, b + 1, v.len());
    proof {
        assert(ys@ =~= v@.take(a as int));
        assert(ds@ =~= v@.skip(b + 1));
    }
    let yv = match parse_bounded(&ys, 2147483647) {
        Some(x) => x,
        None => {
            return Err(date_error("invalid year in ", date_str, "\""));
        },
    };
    let mv = match parse_bounded(&ms, 4294967295) {
        Some(x) => x,
        None => {
            return Err(date_error("invalid month in ", date_str, "\""));
        },
    };
    let dv = match parse_bounded(&ds, 4294967295) {
        Some(x) => x,
        None => {
            return Err(date_error("invalid day in ", date_str, "\""));
        },
    };
    if !(1 <= mv && mv <= 12) {
        return Err(range_error("month ", mv, " out of range 1..12"));
    }
    if !(1 <= dv && dv <= 31) {
        return Err(range_error("day ", dv, " out of range 1..31"));
    }
    let mut out = String::new();
    push_u64(&mut out, yv);
    push_str(&mut out, ", ");
    push_u64(&mut out, mv);
    push_str(&mut out, ", ");
    push_u64(&mut out, dv);
    Ok(out)
}

// ---------------------------------------------------------------------------
// Edits of one task's text
// ---------------------------------------------------------------------------

/// An edit of one task's list-item text.
#[derive(Debug, Clone, PartialEq)]
pub enum ItemEdit {
    /// Toggle the checkbox.
    Toggle,
    /// Set `#due(<args>)`.
    SetDue(String),
    RemoveDue,
    /// Set `#start(<args>)`.
    SetStart(String),
    RemoveStart,
    SetRank(i64),
    RemoveRank,
    AddTag(String),
    RemoveTag(String),
}

/// The plain-value form of an [`ItemEdit`].
pub enum ItemEditV {
    Toggle,
    SetDue(Seq<char>),
    RemoveDue,
    SetStart(Seq<char>),
    RemoveStart,
    SetRank(int),
    RemoveRank,
    AddTag(Seq<char>),
    RemoveTag(Seq<char>),
}

impl View for ItemEdit {
    type V = ItemEditV;

    open spec fn view(&self) -> ItemEditV {
        match self {
            ItemEdit::Toggle => ItemEditV::Toggle,
            ItemEdit::SetDue(a) => ItemEditV::SetDue(a@),
            ItemEdit::RemoveDue => ItemEditV::RemoveDue,
            ItemEdit::SetStart(a) => ItemEditV::SetStart(a@),
            ItemEdit::RemoveStart => ItemEditV::RemoveStart,
            ItemEdit::SetRank(r) => ItemEditV::SetRank(*r as int),
            ItemEdit::RemoveRank => ItemEditV::RemoveRank,
            ItemEdit::AddTag(t) => ItemEditV::AddTag(t@),
            ItemEdit::RemoveTag(t) => ItemEditV::RemoveTag(t@),
        }
    }
}

/// The message when a task has no `#id(...)` to insert before.
pub open spec fn no_id_message() -> Seq<char> {
    "task has no #id() \u{2014} cannot determine insertion point"@
}

/// Toggling the checkbox of a list item's text.
pub open spec fn toggle_item_spec(t: Seq<char>) -> Result<Seq<char>, WriteErrV> {
    let s = t.skip(skip_ws(t, 0));
    if has_prefix(s, "- [ ]"@) {
        Ok(replacen_spec(t, "- [ ]"@, "- [x]"@))
    } else if has_prefix(s, "- [x]"@) {
        Ok(replacen_spec(t, "- [x]"@, "- [ ]"@))
    } else if has_prefix(s, "- [X]"@) {
        Ok(replacen_spec(t, "- [X]"@, "- [ ]"@))
    } else {
        Err(WriteErrV::InvalidTask("list item does not start with checkbox"@))
    }
}

/// Replacing the span of a property with `repl`, or inserting `repl` and a
/// space before `#id("` when there is none.
pub open spec fn set_prop_spec(t: Seq<char>, span: Option<(int, int)>, repl: Seq<char>) -> Result<Seq<char>, WriteErrV> {
    match span {
        Some((s, e)) => Ok(t.take(s) + repl + t.skip(e)),
        None => match insert_point(t) {
            Some(i) => Ok(t.take(i) + repl + " "@ + t.skip(i)),
            None => Err(WriteErrV::InvalidTask(no_id_message())),
        },
    }
}

/// Removing the span of a property (with one preceding space), if any.
pub open spec fn remove_prop_spec(t: Seq<char>, span: Option<(int, int)>) -> Seq<char> {
    match span {
        Some((s, e)) => {
            let (a, b) = trim_leading_space_spec(t, s, e);
            t.take(a) + t.skip(b)
        },
        None => t,
    }
}

/// The rank's Typst text.
pub open spec fn rank_call(rank: int) -> Seq<char> {
    "#rank("@ + dec_int(rank) + ")"@
}

/// Applying an edit to a list item's text.
pub open spec fn edit_item_spec(t: Seq<char>, op: ItemEditV) -> Result<Seq<char>, WriteErrV> {
    match op {
        ItemEditV::Toggle => toggle_item_spec(t),
        ItemEditV::SetDue(a) => set_prop_spec(t, due_span(t), "#due("@ + a + ")"@),
        ItemEditV::RemoveDue => Ok(remove_prop_spec(t, due_span(t))),
        ItemEditV::SetStart(a) => set_prop_spec(t, start_span(t), "#start("@ + a + ")"@),
        ItemEditV::RemoveStart => Ok(remove_prop_spec(t, start_span(t))),
        ItemEditV::SetRank(r) => set_prop_spec(t, rank_span(t), rank_call(r)),
        ItemEditV::RemoveRank => Ok(remove_prop_spec(t, rank_span(t))),
        ItemEditV::AddTag(tag) => set_prop_spec(t, None, tag_call(tag)),
        ItemEditV::RemoveTag(tag) => Ok(remove_prop_spec(t, tag_span(t, tag))),
    }
}

fn replacen_in(t: &Vec<char>, old: &str, new: &str) -> (r: String)
    ensures
        r@ == replacen_spec(t@, old@, new@),
{
    let o = chars_of(old);
    let mut r = String::new();
    match find_in(t, &o, 0) {
        Some(i) => {
            proof {
                lemma_find_from(t@, o@, 0);
            }
            push_range(&mut r, t, 0, i);
            push_str(&mut r, new);
            push_range(&mut r, t, i + o.len(), t.len());
            proof {
                assert(t@.subrange(0, i as int) =~= t@.take(i as int));
                assert(t@.subrange(i + o.len(), t.len() as int) =~= t@.skip(i + o@.len()));
            }
        },
        None => {
            push_chars(&mut r, t);
            assert(r@ =~= t@);
        },
    }
    r
}

fn toggle_item(t: &Vec<char>) -> (r: Result<String, WriteError>)
    ensures
        wres(&r) == toggle_item_spec(t@),
{
    let ws = leading_ws(t);
    let s = slice_vec(t, ws, t.len());
    assert(s@ =~= t@.skip(skip_ws(t@, 0)));
    if starts_with(&s, &chars_of("- [ ]")) {
        Ok(replacen_in(t, "- [ ]", "- [x]"))
    } else if starts_with(&s, &chars_of("- [x]")) {
        Ok(replacen_in(t, "- [x]", "- [ ]"))
    } else if starts_with(&s, &chars_of("- [X]")) {
        Ok(replacen_in(t, "- [X]", "- [ ]"))
    } else {
        Err(WriteError::InvalidTask("list item does not start with checkbox".to_string()))
    }
}

fn set_prop(t: &Vec<char>, span: Option<(usize, usize)>, repl: &str) -> (r: Result<String, WriteError>)
    requires
        span matches Some((s, e)) ==> s <= e <= t.len(),
    ensures
        wres(&r) == set_prop_spec(
            t@,
            match span {
                Some((s, e)) => Some((s as int, e as int)),
                None => None,
            },
            repl@,
        ),
{
    let mut r = String::new();
    match span {
        Some((s, e)) => {
            push_range(&mut r, t, 0, s);
            push_str(&mut r, repl);
            push_range(&mut r, t, e, t.len());
            proof {
                assert(t@.subrange(0, s as int) =~= t@.take(s as int));
                assert(t@.subrange(e as int, t.len() as int) =~= t@.skip(e as int));
            }
            Ok(r)
        },
        None => match insert_point_in(t) {
            Some(i) => {
                push_range(&mut r, t, 0, i);
                push_str(&mut r, repl);
                push_str(&mut r, " ");
                push_range(&mut r, t, i, t.len());
                proof {
                    assert(t@.subrange(0, i as int) =~= t@.take(i as int));
                    assert(t@.subrange(i as int, t.len() as int) =~= t@.skip(i as int));
                }
                Ok(r)
            },
            None => {
                let mut m = String::new();
                push_str(&mut m, "task has no #id() \u{2014} cannot determine insertion point");
                Err(WriteError::InvalidTask(m))
            },
        },
    }
}

fn remove_prop(t: &Vec<char>, span: Option<(usize, usize)>) -> (r: String)
    requires
        span matches Some((s, e)) ==> s <= e <= t.len(),
    ensures
        r@ == remove_prop_spec(
            t@,
            match span {
                Some((s, e)) => Some((s as int, e as int)),
                None => None,
            },
        ),
{
    let mut r = String::new();
    match span {
        Some((s, e)) => {
            let (a, b) = trim_space_in(t, s, e);
            push_range(&mut r, t, 0, a);
            push_range(&mut r, t, b, t.len());
            proof {
                assert(t@.subrange(0, a as int) =~= t@.take(a as int));
                assert(t@.subrange(b as int, t.len() as int) =~= t@.skip(b as int));
            }
        },
        None => {
            push_chars(&mut r, t);
            assert(r@ =~= t@);
        },
    }
    r
}

fn call_text(name: &str, args: &str) -> (r: String)
    ensures
        r@ == name@ + args@ + ")"@,
{
    let mut r = String::new();
    push_str(&mut r, name);
    push_str(&mut r, args);
    push_str(&mut r, ")");
    r
}

/// Applies an edit to the text of one list item.
pub fn edit_item(t: &Vec<char>, op: &ItemEdit) -> (r: Result<String, WriteError>)
    ensures
        wres(&r) == edit_item_spec(t@, op@),
{
    proof {
        reveal_strlit("#due(");
        reveal_strlit("#start(");
    }
    match op {
        ItemEdit::Toggle => toggle_item(t),
        ItemEdit::SetDue(a) => {
            let span = call_span_in(t, "#due(");
            set_prop(t, span, call_text("#due(", a.as_str()).as_str())
        },
        ItemEdit::RemoveDue => {
            let span = call_span_in(t, "#due(");
            Ok(remove_prop(t, span))
        },
        ItemEdit::SetStart(a) => {
            let span = call_span_in(t, "#start(");
            set_prop(t, span, call_text("#start(", a.as_str()).as_str())
        },
        ItemEdit::RemoveStart => {
            let span = call_span_in(t, "#start(");
            Ok(remove_prop(t, span))
        },
        ItemEdit::SetRank(rank) => {
            let span = rank_span_in(t);
            let mut repl = String::new();
            push_str(&mut repl, "#rank(");
            push_i64(&mut repl, *rank);
            push_str(&mut repl, ")");
            set_prop(t, span, repl.as_str())
        },
        ItemEdit::RemoveRank => {
            let span = rank_span_in(t);
            Ok(remove_prop(t, span))
        },
        ItemEdit::AddTag(tag) => {
            let call = tag_call_chars(tag.as_str());
            set_prop(t, None, string_of(&call).as_str())
        },
        ItemEdit::RemoveTag(tag) => {
            let span = word_span_in(t, &tag_call_chars(tag.as_str()));
            Ok(remove_prop(t, span))
        },
    }
}

// ---------------------------------------------------------------------------
// Edits of a whole file
// ---------------------------------------------------------------------------

/// Editing the task named `id` in the file text `text`: the task's list item
/// is replaced by its edited text.
pub open spec fn task_edit_spec(text: Seq<char>, id: Seq<char>, op: ItemEditV) -> Result<Seq<char>, WriteErrV> {
    match task_span(text, id) {
        None => Err(WriteErrV::TaskNotFound(id)),
        Some((s, e)) => match edit_item_spec(text.subrange(s, e), op) {
            Err(x) => Err(x),
            Ok(new) => Ok(text.take(s) + new + text.skip(e)),
        },
    }
}

/// Applies an edit to the list item of the task named `task_id`.
pub fn modify_task_text(source: &Source, task_id: &str, op: &ItemEdit) -> (r: Result<String, WriteError>)
    ensures
        wres(&r) == task_edit_spec(source@, task_id@, op@),
{
    let text = chars_of(source.text());
    let (s, e) = match find_task_node(&text, task_id) {
        Some(span) => span,
        None => {
            return Err(WriteError::TaskNotFound(task_id.to_string()));
        },
    };
    let item = slice_vec(&text, s, e);
    let new_item = edit_item(&item, op)?;
    let mut r = String::new();
    push_range(&mut r, &text, 0, s);
    push_str(&mut r, new_item.as_str());
    push_range(&mut r, &text, e, text.len());
    proof {
        assert(text@.subrange(0, s as int) =~= text@.take(s as int));
        assert(text@.subrange(e as int, text.len() as int) =~= text@.skip(e as int));
    }
    Ok(r)
}

/// Toggles the checkbox of the task named `task_id`.
pub fn toggle_task_checkbox(source: &Source, task_id: &str) -> (r: Result<String, WriteError>)
    ensures
        wres(&r) == task_edit_spec(source@, task_id@, ItemEditV::Toggle),
{
    modify_task_text(source, task_id, &ItemEdit::Toggle)
}

/// Sets or replaces the due date (`YYYY-MM-DD`) of the task named
/// `task_id`; the date is checked first.
pub fn set_task_due(source: &Source, task_id: &str, date_str: &str) -> (r: Result<String, WriteError>)
    ensures
        wres(&r) == match date_args_spec(date_str@) {
            Err(e) => Err(e),
            Ok(a) => task_edit_spec(source@, task_id@, ItemEditV::SetDue(a)),
        },
{
    let args = format_typst_date_args(date_str)?;
    modify_task_text(source, task_id, &ItemEdit::SetDue(args))
}

/// Removes the due date of the task named `task_id` (no change if none).
pub fn remove_task_due(source: &Source, task_id: &str) -> (r: Result<String, WriteError>)
    ensures
        wres(&r) == task_edit_spec(source@, task_id@, ItemEditV::RemoveDue),
{
    modify_task_text(source, task_id, &ItemEdit::RemoveDue)
}

/// Sets or replaces the start date (`YYYY-MM-DD`) of the task named
/// `task_id`; the date is checked first.
pub fn set_task_start(source: &Source, task_id: &str, date_str: &str) -> (r: Result<String, WriteError>)
    ensures
        wres(&r) == match date_args_spec(date_str@) {
            Err(e) => Err(e),
            Ok(a) => task_edit_spec(source@, task_id@, ItemEditV::SetStart(a)),
        },
{
    let args = format_typst_date_args(date_str)?;
    modify_task_text(source, task_id, &ItemEdit::SetStart(args))
}

/// Removes the start date of the task named `task_id` (no change if none).
pub fn remove_task_start(source: &Source, task_id: &str) -> (r: Result<String, WriteError>)
    ensures
        wres(&r) == task_edit_spec(source@, task_id@, ItemEditV::RemoveStart),
{
    modify_task_text(source, task_id, &ItemEdit::RemoveStart)
}

/// Sets or replaces the rank of the task named `task_id` (a rank alias such
/// as `#high` is replaced too).
pub fn set_task_rank(source: &Source, task_id: &str, rank: i64) -> (r: Result<String, WriteError>)
    ensures
        wres(&r) == task_edit_spec(source@, task_id@, ItemEditV::SetRank(rank as int)),
{
    modify_task_text(source, task_id, &ItemEdit::SetRank(rank))
}

/// Removes the rank (or rank alias) of the task named `task_id`.
pub fn remove_task_rank(source: &Source, task_id: &str) -> (r: Result<String, WriteError>)
    ensures
        wres(&r) == task_edit_spec(source@, task_id@, ItemEditV::RemoveRank),
{
    modify_task_text(source, task_id, &ItemEdit::RemoveRank)
}

/// Adds `#tag("<tag>")` before the `#id(...)` of the task named `task_id`
/// (duplicates are not checked).
pub fn add_task_tag(source: &Source, task_id: &str, tag: &str) -> (r: Result<String, WriteError>)
    ensures
        wres(&r) == task_edit_spec(source@, task_id@, ItemEditV::AddTag(tag@)),
{
    modify_task_text(source, task_id, &ItemEdit::AddTag(tag.to_string()))
}

/// Removes `#tag("<tag>")` from the task named `task_id` (no change if
/// absent).
pub fn remove_task_tag(source: &Source, task_id: &str, tag: &str) -> (r: Result<String, WriteError>)
    ensures
        wres(&r) == task_edit_spec(source@, task_id@, ItemEditV::RemoveTag(tag@)),
{
    modify_task_text(source, task_id, &ItemEdit::RemoveTag(tag.to_string()))
}

// ---------------------------------------------------------------------------
// Laws
// ---------------------------------------------------------------------------

proof fn lemma_skip_ws_bounds(s: Seq<char>, i: int)
    requires
        0 <= i <= s.len(),
    ensures
        i <= skip_ws(s, i) <= s.len(),
        forall|j: int| i <= j < skip_ws(s, i) ==> is_ws(#[trigger] s[j]),
        skip_ws(s, i) < s.len() ==> !is_ws(s[skip_ws(s, i)]),
    decreases s.len() - i,
{
    if i < s.len() && is_ws(s[i]) {
        lemma_skip_ws_bounds(s, i + 1);
    }
}

proof fn lemma_skip_ws_agree(s: Seq<char>, t: Seq<char>, i: int, w: int)
    requires
        0 <= i <= w,
        w < s.len(),
        w < t.len(),
        forall|j: int| i <= j < w ==> is_ws(#[trigger] s[j]),
        !is_ws(s[w]),
        forall|j: int| i <= j <= w ==> s[j] == t[j],
    ensures
        skip_ws(s, i) == w,
        skip_ws(t, i) == w,
    decreases w - i,
{
    if i < w {
        lemma_skip_ws_agree(s, t, i + 1, w);
    }
}

proof fn lemma_find_from_at(s: Seq<char>, p: Seq<char>, i: int, w: int)
    requires
        0 <= i <= w,
        matches_at(s, p, w),
        forall|j: int| i <= j < w ==> !matches_at(s, p, j),
    ensures
        find_from(s, p, i) == Some(w),
    decreases w - i,
{
    if i < w {
        assert(!matches_at(s, p, i));
        lemma_find_from_at(s, p, i + 1, w);
    } else {
        assert(s.subrange(i, i + p.len()) == p);
    }
}

/// Replacing the checkbox `p` at the start of an item's text by `q`.
proof fn lemma_replace_checkbox(t: Seq<char>, p: Seq<char>, q: Seq<char>)
    requires
        has_prefix(t.skip(skip_ws(t, 0)), p),
        p.len() == 5,
        q.len() == 5,
        p[0] == '-',
        q[0] == '-',
    ensures
        ({
            let w = skip_ws(t, 0);
            let r = replacen_spec(t, p, q);
            &&& r == t.take(w) + q + t.skip(w + 5)
            &&& skip_ws(r, 0) == w
            &&& r.skip(w).subrange(0, 5) == q
            &&& r.take(w) == t.take(w)
            &&& r.skip(w + 5) == t.skip(w + 5)
        }),
{
    let w = skip_ws(t, 0);
    lemma_skip_ws_bounds(t, 0);
    assert(t.skip(w).subrange(0, 5) == p);
    assert(t[w] == t.skip(w)[0]);
    assert(t[w] == '-');
    assert(matches_at(t, p, w)) by {
        assert(t.subrange(w, w + 5) =~= t.skip(w).subrange(0, 5));
    }
    assert forall|j: int| 0 <= j < w implies !matches_at(t, p, j) by {
        if matches_at(t, p, j) {
            assert(t.subrange(j, j + 5)[0] == t[j]);
            assert(is_ws(t[j]));
        }
    }
    lemma_find_from_at(t, p, 0, w);
    let r = t.take(w) + q + t.skip(w + 5);
    assert(replacen_spec(t, p, q) == r);
    assert(r[w] == q[0]);
    lemma_skip_ws_agree(t, r, 0, w);
    assert(r.skip(w).subrange(0, 5) =~= q);
    assert(r.take(w) =~= t.take(w));
    assert(r.skip(w + 5) =~= t.skip(w + 5));
}

/// Toggling the checkbox of a list item twice gives back the item's text,
/// for an item whose checkbox is `- [ ]` or `- [x]` (an upper-case `- [X]`
/// becomes `- [ ]` and then `- [x]`).
pub proof fn law_toggle_twice(t: Seq<char>)
    requires
        has_prefix(t.skip(skip_ws(t, 0)), "- [ ]"@) || has_prefix(t.skip(skip_ws(t, 0)), "- [x]"@),
    ensures
        edit_item_spec(t, ItemEditV::Toggle) matches Ok(t1) && edit_item_spec(t1, ItemEditV::Toggle)
            == Ok::<Seq<char>, WriteErrV>(t),
{
    reveal_strlit("- [ ]");
    reveal_strlit("- [x]");
    reveal_strlit("- [X]");
    let w = skip_ws(t, 0);
    lemma_skip_ws_bounds(t, 0);
    let open_box = "- [ ]"@;
    let done_box = "- [x]"@;
    if has_prefix(t.skip(w), open_box) {
        lemma_replace_checkbox(t, open_box, done_box);
        let t1 = replacen_spec(t, open_box, done_box);
        assert(toggle_item_spec(t) == Ok::<Seq<char>, WriteErrV>(t1));
        assert(t1.skip(w).subrange(0, 5)[3] == 'x');
        assert(!has_prefix(t1.skip(w), open_box));
        assert(has_prefix(t1.skip(w), done_box));
        lemma_replace_checkbox(t1, done_box, open_box);
        let t2 = replacen_spec(t1, done_box, open_box);
        assert(t.subrange(w, w + 5) =~= t.skip(w).subrange(0, 5));
        assert(t2 =~= t);
    } else {
        lemma_replace_checkbox(t, done_box, open_box);
        let t1 = replacen_spec(t, done_box, open_box);
        assert(t.skip(w).subrange(0, 5)[3] == 'x');
        assert(!has_prefix(t.skip(w), open_box));
        assert(toggle_item_spec(t) == Ok::<Seq<char>, WriteErrV>(t1));
        assert(has_prefix(t1.skip(w), open_box));
        lemma_replace_checkbox(t1, open_box, done_box);
        let t2 = replacen_spec(t1, open_box, done_box);
        assert(t.subrange(w, w + 5) =~= t.skip(w).subrange(0, 5));
        assert(t2 =~= t);
    }
}


/// The first occurrence of `w` in `t` with `c` and a space inserted at `i`
/// is at `i`, when `w` does not occur in `t`, `c` starts with `w`, and `w`
/// holds `#` only at its start.
proof fn lemma_first_at_insert(t: Seq<char>, i: int, c: Seq<char>, w: Seq<char>)
    requires
        0 <= i <= t.len(),
        w.len() > 0,
        w[0] == '#',
        forall|k: int| 0 < k < w.len() ==> w[k] != '#',
        w.len() <= c.len(),
        c.subrange(0, w.len() as int) == w,
        find_first(t, w) is None,
    ensures
        find_first(t.take(i) + c + " "@ + t.skip(i), w) == Some(i),
{
    let t1 = t.take(i) + c + " "@ + t.skip(i);
    lemma_find_from(t, w, 0);
    assert(matches_at(t1, w, i)) by {
        assert(t1.subrange(i, i + w.len()) =~= c.subrange(0, w.len() as int));
    }
    assert forall|j: int| 0 <= j < i implies !matches_at(t1, w, j) by {
        if matches_at(t1, w, j) {
            if j + w.len() <= i {
                assert(t1.subrange(j, j + w.len()) =~= t.subrange(j, j + w.len()));
                assert(matches_at(t, w, j));
            } else {
                assert(t1[i] == c[0]);
                assert(c[0] == w[0]);
                assert(t1.subrange(j, j + w.len())[i - j] == t1[i]);
                assert(w[i - j] == '#');
            }
        }
    }
    lemma_find_from_at(t1, w, 0, i);
}

/// Removing the span `(i, i + c.len())` of `t` with `c` and a space
/// inserted at `i` gives back `t` when a space precedes `i`.
proof fn lemma_remove_inserted(t: Seq<char>, i: int, c: Seq<char>)
    requires
        0 < i <= t.len(),
        t[i - 1] == ' ',
    ensures
        remove_prop_spec(t.take(i) + c + " "@ + t.skip(i), Some((i, i + c.len()))) == t,
{
    reveal_strlit(" ");
    let t1 = t.take(i) + c + " "@ + t.skip(i);
    assert(t1[i - 1] == t[i - 1]);
    assert(trim_leading_space_spec(t1, i, i + c.len()) == (i - 1, i + c.len()));
    let r = t1.take(i - 1) + t1.skip(i + c.len());
    assert(r =~= t);
}

proof fn lemma_scan_plain(t: Seq<char>, k: int, n: int)
    requires
        0 <= k,
        k + n < t.len(),
        0 <= n,
        forall|j: int| k <= j < k + n ==> t[j] != '(' && t[j] != ')',
        t[k + n] == ')',
    ensures
        scan_paren(t, k, 1) == Some(k + n),
    decreases n,
{
    if n > 0 {
        lemma_scan_plain(t, k + 1, n - 1);
    }
}

/// Adding a tag and then removing it gives back the item's text, for any
/// tag, when a space precedes the `#id("` and the tag's call, once
/// inserted there, is its first occurrence in the edited text (removal
/// takes the first occurrence).
pub proof fn law_add_then_remove_tag(t: Seq<char>, tag: Seq<char>)
    requires
        insert_point(t) matches Some(i) && i > 0 && t[i - 1] == ' ' && find_first(
            t.take(i) + tag_call(tag) + " "@ + t.skip(i),
            tag_call(tag),
        ) == Some(i),
    ensures
        edit_item_spec(t, ItemEditV::AddTag(tag)) matches Ok(t1) && edit_item_spec(
            t1,
            ItemEditV::RemoveTag(tag),
        ) == Ok::<Seq<char>, WriteErrV>(t),
{
    reveal_strlit("#id(\"");
    let i = insert_point(t)->0;
    lemma_find_from(t, "#id(\""@, 0);
    let c = tag_call(tag);
    let t1 = t.take(i) + c + " "@ + t.skip(i);
    assert(set_prop_spec(t, None, c) == Ok::<Seq<char>, WriteErrV>(t1));
    assert(tag_span(t1, tag) == Some((i, i + c.len())));
    lemma_remove_inserted(t, i, c);
}

/// Adding a tag that holds no `#` and is not on the item yet, and then
/// removing it, gives back the item's text, when a space precedes the
/// `#id("`.
pub proof fn law_add_then_remove_plain_tag(t: Seq<char>, tag: Seq<char>)
    requires
        insert_point(t) matches Some(i) && i > 0 && t[i - 1] == ' ',
        find_first(t, tag_call(tag)) is None,
        forall|k: int| 0 <= k < tag.len() ==> tag[k] != '#',
    ensures
        edit_item_spec(t, ItemEditV::AddTag(tag)) matches Ok(t1) && edit_item_spec(
            t1,
            ItemEditV::RemoveTag(tag),
        ) == Ok::<Seq<char>, WriteErrV>(t),
{
    reveal_strlit("#id(\"");
    let i = insert_point(t)->0;
    lemma_find_from(t, "#id(\""@, 0);
    let c = tag_call(tag);
    lemma_tag_call_hash(tag);
    assert(c.subrange(0, c.len() as int) =~= c);
    lemma_first_at_insert(t, i, c, c);
    law_add_then_remove_tag(t, tag);
}

proof fn lemma_tag_call_hash(tag: Seq<char>)
    requires
        forall|k: int| 0 <= k < tag.len() ==> tag[k] != '#',
    ensures
        tag_call(tag).len() > 0,
        tag_call(tag)[0] == '#',
        forall|k: int| 0 < k < tag_call(tag).len() ==> tag_call(tag)[k] != '#',
{
    reveal_strlit("#tag(\"");
    reveal_strlit("\")");
    let c = tag_call(tag);
    assert forall|k: int| 0 < k < c.len() implies c[k] != '#' by {
        if 6 <= k < 6 + tag.len() {
            assert(c[k] == tag[k - 6]);
        }
    }
}

/// Setting the due date of an item without one and then removing it gives
/// back the item's text, when the date arguments hold no parenthesis and
/// no `#`, and a space precedes the `#id("`.
pub proof fn law_set_then_remove_due(t: Seq<char>, args: Seq<char>)
    requires
        insert_point(t) matches Some(i) && i > 0 && t[i - 1] == ' ',
        find_first(t, "#due("@) is None,
        forall|k: int|
            0 <= k < args.len() ==> args[k] != '(' && args[k] != ')' && args[k] != '#',
    ensures
        edit_item_spec(t, ItemEditV::SetDue(args)) matches Ok(t1) && edit_item_spec(
            t1,
            ItemEditV::RemoveDue,
        ) == Ok::<Seq<char>, WriteErrV>(t),
{
    reveal_strlit("#due(");
    reveal_strlit(")");
    reveal_strlit("#id(\"");
    let i = insert_point(t)->0;
    lemma_find_from(t, "#id(\""@, 0);
    let w = "#due("@;
    let c = w + args + ")"@;
    assert(due_span(t) is None);
    let t1 = t.take(i) + c + " "@ + t.skip(i);
    assert(edit_item_spec(t, ItemEditV::SetDue(args)) == Ok::<Seq<char>, WriteErrV>(t1));
    assert(c.subrange(0, 5) =~= w);
    lemma_first_at_insert(t, i, c, w);
    assert forall|j: int| i + 5 <= j < i + 5 + args.len() implies t1[j] != '(' && t1[j] != ')' by {
        assert(t1[j] == args[j - i - 5]);
    }
    assert(t1[i + 5 + args.len()] == ')');
    lemma_scan_plain(t1, i + 5, args.len() as int);
    assert(t1[i + 4] == '(');
    assert(matching_paren_spec(t1, i + 4) == Some(i + 5 + args.len()));
    assert(due_span(t1) == Some((i, i + c.len())));
    lemma_remove_inserted(t, i, c);
}


/// A call `w...` put at `i` in place of `t[i..e]` is the first occurrence
/// of `w` when `w` occurred nowhere before `i` in `t`.
proof fn lemma_first_at_replace(t: Seq<char>, i: int, e: int, c: Seq<char>, w: Seq<char>)
    requires
        0 <= i <= e <= t.len(),
        w.len() > 0,
        w[0] == '#',
        forall|k: int| 0 < k < w.len() ==> w[k] != '#',
        w.len() <= c.len(),
        c.subrange(0, w.len() as int) == w,
        forall|j: int| 0 <= j < i ==> !matches_at(t, w, j),
    ensures
        find_first(t.take(i) + c + t.skip(e), w) == Some(i),
{
    let t1 = t.take(i) + c + t.skip(e);
    assert(matches_at(t1, w, i)) by {
        assert(t1.subrange(i, i + w.len()) =~= c.subrange(0, w.len() as int));
    }
    assert forall|j: int| 0 <= j < i implies !matches_at(t1, w, j) by {
        if matches_at(t1, w, j) {
            if j + w.len() <= i {
                assert(t1.subrange(j, j + w.len()) =~= t.subrange(j, j + w.len()));
                assert(matches_at(t, w, j));
            } else {
                assert(t1[i] == c[0]);
                assert(c[0] == w[0]);
                assert(t1.subrange(j, j + w.len())[i - j] == t1[i]);
                assert(w[i - j] == '#');
            }
        }
    }
    lemma_find_from_at(t1, w, 0, i);
}

/// After a call `w args )` is put at `i`, with `args` free of parentheses,
/// the call's span is `i` to the end of the call.
proof fn lemma_call_span_at(t1: Seq<char>, i: int, w: Seq<char>, args: Seq<char>)
    requires
        w.len() > 0,
        w[w.len() - 1] == '(',
        0 <= i,
        i + w.len() + args.len() < t1.len(),
        t1.subrange(i, i + w.len() + args.len() + 1) == w + args + ")"@,
        forall|k: int| 0 <= k < args.len() ==> args[k] != '(' && args[k] != ')',
        find_first(t1, w) == Some(i),
    ensures
        call_span(t1, w) == Some((i, i + w.len() + args.len() + 1)),
{
    reveal_strlit(")");
    let c = w + args + ")"@;
    let n = w.len() as int;
    assert forall|j: int| i + n <= j < i + n + args.len() implies t1[j] != '(' && t1[j] != ')' by {
        assert(t1[j] == t1.subrange(i, i + n + args.len() + 1)[j - i]);
        assert(c[j - i] == args[j - i - n]);
    }
    assert(t1[i + n + args.len()] == t1.subrange(i, i + n + args.len() + 1)[n + args.len()]);
    assert(t1[i + n - 1] == t1.subrange(i, i + n + args.len() + 1)[n - 1]);
    lemma_scan_plain(t1, i + n, args.len() as int);
    assert(matching_paren_spec(t1, i + n - 1) == Some(i + n + args.len()));
}

/// Setting the due date leaves the item with that due date: its `#due(...)`
/// call is the one just written, whether it replaced one or was inserted,
/// when the date arguments hold no parenthesis and no `#` (an item whose
/// `#due(` has no closing parenthesis is left out).
pub proof fn law_set_due_reads_back(t: Seq<char>, args: Seq<char>)
    requires
        due_span(t) is Some || (find_first(t, "#due("@) is None && insert_point(t) is Some),
        forall|k: int|
            0 <= k < args.len() ==> args[k] != '(' && args[k] != ')' && args[k] != '#',
    ensures
        edit_item_spec(t, ItemEditV::SetDue(args)) matches Ok(t1) && (due_span(t1) matches Some((
            s,
            e,
        )) && t1.subrange(s, e) == "#due("@ + args + ")"@),
{
    reveal_strlit("#due(");
    reveal_strlit(")");
    reveal_strlit("#id(\"");
    let w = "#due("@;
    let c = w + args + ")"@;
    assert(c.subrange(0, 5) =~= w);
    match due_span(t) {
        Some((s0, e0)) => {
            lemma_find_from(t, w, 0);
            lemma_scan_paren(t, s0 + 5, 1);
            let t1 = t.take(s0) + c + t.skip(e0);
            assert(edit_item_spec(t, ItemEditV::SetDue(args)) == Ok::<Seq<char>, WriteErrV>(t1));
            lemma_first_at_replace(t, s0, e0, c, w);
            assert(t1.subrange(s0, s0 + c.len()) =~= c);
            lemma_call_span_at(t1, s0, w, args);
        },
        None => {
            let i = insert_point(t)->0;
            lemma_find_from(t, "#id(\""@, 0);
            let t1 = t.take(i) + c + " "@ + t.skip(i);
            assert(edit_item_spec(t, ItemEditV::SetDue(args)) == Ok::<Seq<char>, WriteErrV>(t1));
            lemma_first_at_insert(t, i, c, w);
            assert(t1.subrange(i, i + c.len()) =~= c);
            lemma_call_span_at(t1, i, w, args);
        },
    }
}

/// Setting the start date of an item without one and then removing it
/// gives back the item's text, when the date arguments hold no parenthesis
/// and no `#`, and a space precedes the `#id("`.
pub proof fn law_set_then_remove_start(t: Seq<char>, args: Seq<char>)
    requires
        insert_point(t) matches Some(i) && i > 0 && t[i - 1] == ' ',
        find_first(t, "#start("@) is None,
        forall|k: int|
            0 <= k < args.len() ==> args[k] != '(' && args[k] != ')' && args[k] != '#',
    ensures
        edit_item_spec(t, ItemEditV::SetStart(args)) matches Ok(t1) && edit_item_spec(
            t1,
            ItemEditV::RemoveStart,
        ) == Ok::<Seq<char>, WriteErrV>(t),
{
    reveal_strlit("#start(");
    reveal_strlit(")");
    reveal_strlit("#id(\"");
    let i = insert_point(t)->0;
    lemma_find_from(t, "#id(\""@, 0);
    let w = "#start("@;
    let c = w + args + ")"@;
    assert(start_span(t) is None);
    let t1 = t.take(i) + c + " "@ + t.skip(i);
    assert(edit_item_spec(t, ItemEditV::SetStart(args)) == Ok::<Seq<char>, WriteErrV>(t1));
    assert(c.subrange(0, 7) =~= w);
    lemma_first_at_insert(t, i, c, w);
    assert(t1.subrange(i, i + c.len()) =~= c);
    lemma_call_span_at(t1, i, w, args);
    lemma_remove_inserted(t, i, c);
}


proof fn lemma_dec_nat_plain(n: nat)
    ensures
        forall|k: int| 0 <= k < dec_nat(n).len() ==> {
            let c = #[trigger] dec_nat(n)[k];
            c != '(' && c != ')' && c != '#'
        },
    decreases n,
{
    if n >= 10 {
        lemma_dec_nat_plain(n / 10);
        let d = dec_nat(n / 10);
        assert forall|k: int| 0 <= k < dec_nat(n).len() implies {
            let c = #[trigger] dec_nat(n)[k];
            c != '(' && c != ')' && c != '#'
        } by {
            if k < d.len() {
                assert(dec_nat(n)[k] == d[k]);
            }
        }
    }
}

/// Setting the rank of an item without one (no `#rank(`, `#high`,
/// `#medium` or `#low`) and then removing it gives back the item's text,
/// when a space precedes the `#id("`.
#[verifier::spinoff_prover]
#[verifier::rlimit(40)]
pub proof fn law_set_then_remove_rank(t: Seq<char>, rank: int)
    requires
        insert_point(t) matches Some(i) && i > 0 && t[i - 1] == ' ',
        find_first(t, "#rank("@) is None,
        find_first(t, "#high"@) is None,
        find_first(t, "#medium"@) is None,
        find_first(t, "#low"@) is None,
    ensures
        edit_item_spec(t, ItemEditV::SetRank(rank)) matches Ok(t1) && edit_item_spec(
            t1,
            ItemEditV::RemoveRank,
        ) == Ok::<Seq<char>, WriteErrV>(t),
{
    reveal_strlit("#rank(");
    reveal_strlit(")");
    reveal_strlit("#id(\"");
    let i = insert_point(t)->0;
    lemma_find_from(t, "#id(\""@, 0);
    let w = "#rank("@;
    let args = dec_int(rank);
    let c = rank_call(rank);
    assert(c == w + args + ")"@);
    assert(rank_span(t) is None);
    let t1 = t.take(i) + c + " "@ + t.skip(i);
    assert(edit_item_spec(t, ItemEditV::SetRank(rank)) == Ok::<Seq<char>, WriteErrV>(t1));
    assert(c.subrange(0, 6) =~= w);
    lemma_first_at_insert(t, i, c, w);
    assert(t1.subrange(i, i + c.len()) =~= c);
    if rank < 0 {
        lemma_dec_nat_plain((-rank) as nat);
        assert forall|k: int| 0 <= k < args.len() implies args[k] != '(' && args[k] != ')' by {
            if k > 0 {
                assert(args[k] == dec_nat((-rank) as nat)[k - 1]);
            }
        }
    } else {
        lemma_dec_nat_plain(rank as nat);
    }
    lemma_call_span_at(t1, i, w, args);
    assert(rank_span(t1) == Some((i, i + c.len())));
    lemma_remove_inserted(t, i, c);
}


/// Setting the due date twice is setting it once to the second date: the
/// later write replaces the earlier, under the conditions of
/// [`law_set_due_reads_back`] for both dates.
#[verifier::spinoff_prover]
#[verifier::rlimit(40)]
pub proof fn law_set_due_twice(t: Seq<char>, a: Seq<char>, b: Seq<char>)
    requires
        due_span(t) is Some || (find_first(t, "#due("@) is None && insert_point(t) is Some),
        forall|k: int| 0 <= k < a.len() ==> a[k] != '(' && a[k] != ')' && a[k] != '#',
        forall|k: int| 0 <= k < b.len() ==> b[k] != '(' && b[k] != ')' && b[k] != '#',
    ensures
        edit_item_spec(t, ItemEditV::SetDue(a)) matches Ok(t1) && edit_item_spec(
            t1,
            ItemEditV::SetDue(b),
        ) == edit_item_spec(t, ItemEditV::SetDue(b)),
{
    reveal_strlit("#due(");
    reveal_strlit(")");
    reveal_strlit("#id(\"");
    let w = "#due("@;
    let ca = w + a + ")"@;
    let cb = w + b + ")"@;
    assert(ca.subrange(0, 5) =~= w);
    match due_span(t) {
        Some((s0, e0)) => {
            lemma_find_from(t, w, 0);
            lemma_scan_paren(t, s0 + 5, 1);
            let t1 = t.take(s0) + ca + t.skip(e0);
            lemma_first_at_replace(t, s0, e0, ca, w);
            assert(t1.subrange(s0, s0 + ca.len()) =~= ca);
            lemma_call_span_at(t1, s0, w, a);
            let t2 = t1.take(s0) + cb + t1.skip(s0 + ca.len());
            assert(t2 =~= t.take(s0) + cb + t.skip(e0));
        },
        None => {
            let i = insert_point(t)->0;
            lemma_find_from(t, "#id(\""@, 0);
            let t1 = t.take(i) + ca + " "@ + t.skip(i);
            lemma_first_at_insert(t, i, ca, w);
            assert(t1.subrange(i, i + ca.len()) =~= ca);
            lemma_call_span_at(t1, i, w, a);
            let t2 = t1.take(i) + cb + t1.skip(i + ca.len());
            assert(t2 =~= t.take(i) + cb + " "@ + t.skip(i));
        },
    }
}


proof fn lemma_task_span_bounds(text: Seq<char>, nodes: Seq<(int, int)>, id: Seq<char>, i: int)
    ensures
        task_span_from(text, nodes, id, i) matches Some((s, e)) ==> 0 <= s <= e <= text.len(),
    decreases nodes.len() - i,
{
    if 0 <= i < nodes.len() {
        lemma_task_span_bounds(text, nodes, id, i + 1);
    }
}

/// Editing a task changes only its list item: the file text before the
/// item and after it is kept as it was.
pub proof fn law_edit_is_local(text: Seq<char>, id: Seq<char>, op: ItemEditV)
    ensures
        task_edit_spec(text, id, op) matches Ok(r) ==> (task_span(text, id) matches Some((s, e)) && 0 <= s
            <= e <= text.len() && r.take(s) == text.take(s) && r.skip(r.len() - (text.len() - e))
            == text.skip(e)),
{
    lemma_task_span_bounds(text, task_nodes(text), id, 0);
    if let Some((s, e)) = task_span(text, id) {
        if let Ok(new) = edit_item_spec(text.subrange(s, e), op) {
            let r = text.take(s) + new + text.skip(e);
            assert(r.take(s) =~= text.take(s));
            assert(r.skip(r.len() - (text.len() - e)) =~= text.skip(e));
        }
    }
}


/// Where the parser finds the task `id` in an edited file `r` at the place
/// the edit of its item put it: same start, end moved by the change in
/// length.
pub open spec fn refound(text: Seq<char>, r: Seq<char>, id: Seq<char>) -> bool {
    task_span(text, id) matches Some((s, e)) && task_span(r, id) == Some((s, e + r.len() - text.len()))
}

/// An edit that a second edit undoes on the task's item is undone on the
/// whole file too, where the parser finds the edited item again where the
/// first edit put it.
pub proof fn law_file_undo(text: Seq<char>, id: Seq<char>, op1: ItemEditV, op2: ItemEditV)
    requires
        task_span(text, id) matches Some((s, e)) && edit_item_spec(text.subrange(s, e), op1) matches Ok(n1)
            && edit_item_spec(n1, op2) == Ok::<Seq<char>, WriteErrV>(text.subrange(s, e)),
        task_edit_spec(text, id, op1) matches Ok(r1) ==> refound(text, r1, id),
    ensures
        task_edit_spec(text, id, op1) matches Ok(r1) && task_edit_spec(r1, id, op2) == Ok::<
            Seq<char>,
            WriteErrV,
        >(text),
{
    lemma_task_span_bounds(text, task_nodes(text), id, 0);
    let (s, e) = task_span(text, id)->Some_0;
    let item = text.subrange(s, e);
    let n1 = edit_item_spec(item, op1)->Ok_0;
    let r1 = text.take(s) + n1 + text.skip(e);
    assert(task_edit_spec(text, id, op1) == Ok::<Seq<char>, WriteErrV>(r1));
    let e1 = e + r1.len() - text.len();
    assert(e1 == s + n1.len());
    assert(r1.subrange(s, e1) =~= n1);
    assert(r1.take(s) =~= text.take(s));
    assert(r1.skip(e1) =~= text.skip(e));
    assert(text.take(s) + item + text.skip(e) =~= text);
}

/// Toggling a task's checkbox twice gives back the file, where the parser
/// finds the toggled item again in the toggled file.
pub proof fn law_toggle_twice_in_file(text: Seq<char>, id: Seq<char>)
    requires
        task_span(text, id) matches Some((s, e)) && (has_prefix(
            text.subrange(s, e).skip(skip_ws(text.subrange(s, e), 0)),
            "- [ ]"@,
        ) || has_prefix(text.subrange(s, e).skip(skip_ws(text.subrange(s, e), 0)), "- [x]"@)),
        task_edit_spec(text, id, ItemEditV::Toggle) matches Ok(r1) ==> refound(text, r1, id),
    ensures
        task_edit_spec(text, id, ItemEditV::Toggle) matches Ok(r1) && task_edit_spec(
            r1,
            id,
            ItemEditV::Toggle,
        ) == Ok::<Seq<char>, WriteErrV>(text),
{
    let (s, e) = task_span(text, id)->Some_0;
    law_toggle_twice(text.subrange(s, e));
    law_file_undo(text, id, ItemEditV::Toggle, ItemEditV::Toggle);
}

/// Adding a tag the task does not have and removing it again gives back
/// the file, where the parser finds the edited item again.
pub proof fn law_add_then_remove_tag_in_file(text: Seq<char>, id: Seq<char>, tag: Seq<char>)
    requires
        task_span(text, id) matches Some((s, e)) && insert_point(text.subrange(s, e)) matches Some(i)
            && i > 0 && text.subrange(s, e)[i - 1] == ' ' && find_first(
            text.subrange(s, e),
            tag_call(tag),
        ) is None,
        forall|k: int| 0 <= k < tag.len() ==> tag[k] != '#',
        task_edit_spec(text, id, ItemEditV::AddTag(tag)) matches Ok(r1) ==> refound(text, r1, id),
    ensures
        task_edit_spec(text, id, ItemEditV::AddTag(tag)) matches Ok(r1) && task_edit_spec(
            r1,
            id,
            ItemEditV::RemoveTag(tag),
        ) == Ok::<Seq<char>, WriteErrV>(text),
{
    let (s, e) = task_span(text, id)->Some_0;
    law_add_then_remove_plain_tag(text.subrange(s, e), tag);
    law_file_undo(text, id, ItemEditV::AddTag(tag), ItemEditV::RemoveTag(tag));
}

/// Setting a due date on a task without one and removing it again gives
/// back the file, where the parser finds the edited item again.
pub proof fn law_set_then_remove_due_in_file(text: Seq<char>, id: Seq<char>, args: Seq<char>)
    requires
        task_span(text, id) matches Some((s, e)) && insert_point(text.subrange(s, e)) matches Some(i)
            && i > 0 && text.subrange(s, e)[i - 1] == ' ' && find_first(text.subrange(s, e), "#due("@)
            is None,
        forall|k: int|
            0 <= k < args.len() ==> args[k] != '(' && args[k] != ')' && args[k] != '#',
        task_edit_spec(text, id, ItemEditV::SetDue(args)) matches Ok(r1) ==> refound(text, r1, id),
    ensures
        task_edit_spec(text, id, ItemEditV::SetDue(args)) matches Ok(r1) && task_edit_spec(
            r1,
            id,
            ItemEditV::RemoveDue,
        ) == Ok::<Seq<char>, WriteErrV>(text),
{
    let (s, e) = task_span(text, id)->Some_0;
    law_set_then_remove_due(text.subrange(s, e), args);
    law_file_undo(text, id, ItemEditV::SetDue(args), ItemEditV::RemoveDue);
}


/// Setting a task's due date twice is setting it once to the second date,
/// on the whole file, where the parser finds the edited item again.
pub proof fn law_set_due_twice_in_file(text: Seq<char>, id: Seq<char>, a: Seq<char>, b: Seq<char>)
    requires
        task_span(text, id) matches Some((s, e)) && (due_span(text.subrange(s, e)) is Some || (find_first(
            text.subrange(s, e),
            "#due("@,
        ) is None && insert_point(text.subrange(s, e)) is Some)),
        forall|k: int| 0 <= k < a.len() ==> a[k] != '(' && a[k] != ')' && a[k] != '#',
        forall|k: int| 0 <= k < b.len() ==> b[k] != '(' && b[k] != ')' && b[k] != '#',
        task_edit_spec(text, id, ItemEditV::SetDue(a)) matches Ok(r1) ==> refound(text, r1, id),
    ensures
        task_edit_spec(text, id, ItemEditV::SetDue(a)) matches Ok(r1) && task_edit_spec(
            r1,
            id,
            ItemEditV::SetDue(b),
        ) == task_edit_spec(text, id, ItemEditV::SetDue(b)),
{
    lemma_task_span_bounds(text, task_nodes(text), id, 0);
    let (s, e) = task_span(text, id)->Some_0;
    let item = text.subrange(s, e);
    law_set_due_twice(item, a, b);
    let n1 = edit_item_spec(item, ItemEditV::SetDue(a))->Ok_0;
    let r1 = text.take(s) + n1 + text.skip(e);
    assert(task_edit_spec(text, id, ItemEditV::SetDue(a)) == Ok::<Seq<char>, WriteErrV>(r1));
    let e1 = e + r1.len() - text.len();
    assert(r1.subrange(s, e1) =~= n1);
    assert(r1.take(s) =~= text.take(s));
    assert(r1.skip(e1) =~= text.skip(e));
}

}
