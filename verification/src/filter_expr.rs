//! Translate filter expressions into SQL WHERE fragments.
//!
//! The expression text is parsed by `evalexpr` (used only as a parser); the
//! parser's tree is handed over in pre-order, rebuilt as a [`Node`] tree and
//! walked here to produce SQL.  Nothing is ever evaluated.
//!
//! Fields: `done`, `due`, `start`, `rank`, `title`, `milestone`, `file`, `id`.
//! Operators: `==`, `!=`, `<`, `>`, `<=`, `>=`, `&&`, `||`, `!`, parentheses.
//! Functions: `has(field)`, `miss(field)`, `has_tag("name")`,
//! `search("query")`, `contains(field, "substr")`.

use vstd::prelude::*;
use evalexpr::{build_operator_tree, DefaultNumericTypes as Num, Operator as O, Value as V};
use crate::text::{str_eq, push_str, dec_nat, chars_of, string_of, slice_vec};

verus! {

broadcast use vstd::string::group_string_axioms;

// ---------------------------------------------------------------------------
// Parser output
// ---------------------------------------------------------------------------

/// Node tag: an operator told apart by its display text (see [`op_kind`]).
/// For every tag, `text` is the display form of the parser's operator.
pub const TAG_OPERATOR: u8 = 0;
/// Node tag: unary negation.
pub const TAG_NEG: u8 = 1;
/// Node tag: variable read; `text` is the identifier.
pub const TAG_VAR: u8 = 2;
/// Node tag: function call; `text` is the function name.
pub const TAG_FUNC: u8 = 3;
/// Node tag: string constant; `text` is the string between double quotes.
pub const TAG_STR: u8 = 4;
/// Node tag: boolean constant; `text` is `true` or `false`.
pub const TAG_BOOL: u8 = 5;
/// Node tag: any other constant: a number (integer or float), whose display
/// form is its text, or a tuple or the empty value, displayed in parentheses.
pub const TAG_VALUE: u8 = 6;

/// One parser node in pre-order, with the number of its children.
#[derive(Debug, Clone, PartialEq)]
pub struct FlatNode {
    pub tag: u8,
    pub text: String,
    pub arity: usize,
    /// Debug rendering of the parser's operator, used in error messages.
    pub debug: String,
}

/// A parsed expression tree.
pub struct Node {
    pub tag: u8,
    pub text: String,
    pub debug: String,
    pub children: Vec<Node>,
}

/// The plain-value form of a [`FlatNode`].
pub struct FlatV {
    pub tag: u8,
    pub text: Seq<char>,
    pub arity: nat,
    pub debug: Seq<char>,
}

impl View for FlatNode {
    type V = FlatV;

    open spec fn view(&self) -> FlatV {
        FlatV { tag: self.tag, text: self.text@, arity: self.arity as nat, debug: self.debug@ }
    }
}

/// The pre-order form of a tree: each node followed by its subtrees.
pub open spec fn preorder(n: Node) -> Seq<FlatV>
    decreases n, n.children@.len() + 1,
{
    seq![FlatV { tag: n.tag, text: n.text@, arity: n.children@.len(), debug: n.debug@ }]
        + preorder_children(n, 0)
}

/// The pre-order form of the subtrees of `n` from child `k` on.
pub open spec fn preorder_children(n: Node, k: int) -> Seq<FlatV>
    decreases n, n.children@.len() - k,
    when 0 <= k
{
    if 0 <= k < n.children@.len() {
        preorder(n.children@[k]) + preorder_children(n, k + 1)
    } else {
        Seq::empty()
    }
}

/// What `evalexpr::build_operator_tree` gives for an expression text: its
/// tree in pre-order, or the parser's error message.
pub uninterp spec fn evalexpr_preorder(expr: Seq<char>) -> Result<Seq<FlatV>, Seq<char>>;

/// A parse result as plain values.
pub open spec fn preorder_result_view(r: &Result<Vec<FlatNode>, String>) -> Result<Seq<FlatV>, Seq<char>> {
    match r {
        Ok(v) => Ok(v@.map_values(|f: FlatNode| f@)),
        Err(e) => Err(e@),
    }
}

/// Whether a tag is that of a variable read or a constant, which the
/// parser builds as leaves.
pub open spec fn is_leaf_tag(tag: u8) -> bool {
    tag == TAG_VAR || (TAG_STR <= tag && tag <= TAG_VALUE)
}

/// Every variable read and constant of a pre-order form has no children.
pub open spec fn leaves_bare(f: Seq<FlatV>) -> bool {
    forall|i: int| 0 <= i < f.len() && is_leaf_tag((#[trigger] f[i]).tag) ==> f[i].arity == 0
}

/// Parses `expr` with `evalexpr::build_operator_tree` and lists the nodes of
/// the tree in pre-order (the order of `Node::iter`).  Trusted: the result
/// is the parser's, taken as plain values, and variable reads and
/// constants have no children (their operators take no argument, and the
/// tree builder never appends to a leaf).
#[verifier::external_body]
fn parse_preorder(expr: &str) -> (r: Result<Vec<FlatNode>, String>)
    ensures
        preorder_result_view(&r) == evalexpr_preorder(expr@),
        r matches Ok(v) ==> leaves_bare(v@.map_values(|f: FlatNode| f@)),
{
    let tree = build_operator_tree::<Num>(expr).map_err(|e| e.to_string())?;
    Ok(tree.iter().map(|n| {
        let op = n.operator();
        let tag = match op {
            O::Neg => 1,
            O::VariableIdentifierRead { .. } => 2,
            O::FunctionIdentifier { .. } => 3,
            O::Const { value: V::String(_) } => 4,
            O::Const { value: V::Boolean(_) } => 5,
            O::Const { .. } => 6,
            _ => 0,
        };
        FlatNode { tag, text: op.to_string(), arity: n.children().len(), debug: format!("{:?}", op) }
    }).collect())
}

// ---------------------------------------------------------------------------
// Public types
// ---------------------------------------------------------------------------

/// SQL fragment produced by translating one expression node.
#[derive(Debug, Clone, PartialEq)]
pub struct SqlFragment {
    /// SQL WHERE clause fragment (e.g. `"(t.due IS NOT NULL AND t.due < ?)"`).
    pub condition: String,
    /// Positional parameter values to bind, one per `?` in `condition`.
    pub params: Vec<String>,
    /// Whether `search()` was used (requires the full-text JOIN).
    pub needs_fts_join: bool,
}

/// The plain-value form of a [`SqlFragment`].
pub struct FragV {
    pub cond: Seq<char>,
    pub params: Seq<Seq<char>>,
    pub fts: bool,
}

impl View for SqlFragment {
    type V = FragV;

    open spec fn view(&self) -> FragV {
        FragV {
            cond: self.condition@,
            params: self.params@.map_values(|s: String| s@),
            fts: self.needs_fts_join,
        }
    }
}

/// Errors from filter-expression translation.
#[derive(Debug, Clone, PartialEq)]
pub enum FilterExprError {
    Parse(String),
    UnsupportedOperator(String),
    UnknownField(String),
    Invalid(String),
}

/// The plain-value form of a [`FilterExprError`].
pub enum FilterErrV {
    Parse(Seq<char>),
    UnsupportedOperator(Seq<char>),
    UnknownField(Seq<char>),
    Invalid(Seq<char>),
}

impl View for FilterExprError {
    type V = FilterErrV;

    open spec fn view(&self) -> FilterErrV {
        match self {
            FilterExprError::Parse(s) => FilterErrV::Parse(s@),
            FilterExprError::UnsupportedOperator(s) => FilterErrV::UnsupportedOperator(s@),
            FilterExprError::UnknownField(s) => FilterErrV::UnknownField(s@),
            FilterExprError::Invalid(s) => FilterErrV::Invalid(s@),
        }
    }
}

impl FilterExprError {
    /// The error's message, as its `Display` form would print it.
    pub fn message(&self) -> (r: String)
        ensures
            r@ == error_message(self@),
    {
        let mut r = String::new();
        match self {
            FilterExprError::Parse(s) => {
                push_str(&mut r, "failed to parse filter expression: ");
                push_str(&mut r, s.as_str());
            },
            FilterExprError::UnsupportedOperator(s) => {
                push_str(&mut r, "unsupported operator in filter expression: ");
                push_str(&mut r, s.as_str());
            },
            FilterExprError::UnknownField(s) => {
                push_str(&mut r, "unknown field in filter expression: ");
                push_str(&mut r, s.as_str());
            },
            FilterExprError::Invalid(s) => {
                push_str(&mut r, "invalid filter expression: ");
                push_str(&mut r, s.as_str());
            },
        }
        r
    }
}

/// The message of a filter-expression error.
pub open spec fn error_message(e: FilterErrV) -> Seq<char> {
    match e {
        FilterErrV::Parse(s) => "failed to parse filter expression: "@ + s,
        FilterErrV::UnsupportedOperator(s) => "unsupported operator in filter expression: "@ + s,
        FilterErrV::UnknownField(s) => "unknown field in filter expression: "@ + s,
        FilterErrV::Invalid(s) => "invalid filter expression: "@ + s,
    }
}

/// The result of a translation step, as plain values.
pub type TrV = Result<FragV, FilterErrV>;

// ---------------------------------------------------------------------------
// Operator kinds
// ---------------------------------------------------------------------------

/// The operators the translator tells apart.
#[derive(Debug, Clone, PartialEq)]
pub enum OpKind {
    Root,
    And,
    Or,
    Not,
    Eq,
    Neq,
    Lt,
    Gt,
    Leq,
    Geq,
    Neg,
    Tuple,
    Var,
    Func,
    Const,
    Other,
}

/// The kind of a node, from its tag and (for operators) its display text.
pub open spec fn op_kind(tag: u8, text: Seq<char>) -> OpKind {
    if tag == TAG_OPERATOR {
        if text == ""@ { OpKind::Root }
        else if text == "&&"@ { OpKind::And }
        else if text == "||"@ { OpKind::Or }
        else if text == "!"@ { OpKind::Not }
        else if text == "=="@ { OpKind::Eq }
        else if text == "!="@ { OpKind::Neq }
        else if text == "<"@ { OpKind::Lt }
        else if text == ">"@ { OpKind::Gt }
        else if text == "<="@ { OpKind::Leq }
        else if text == ">="@ { OpKind::Geq }
        else if text == ", "@ { OpKind::Tuple }
        else { OpKind::Other }
    } else if tag == TAG_NEG {
        OpKind::Neg
    } else if tag == TAG_VAR {
        OpKind::Var
    } else if tag == TAG_FUNC {
        OpKind::Func
    } else if TAG_STR <= tag <= TAG_VALUE {
        OpKind::Const
    } else {
        OpKind::Other
    }
}

/// Computes [`op_kind`].
pub fn node_kind(n: &Node) -> (k: OpKind)
    ensures
        k == op_kind(n.tag, n.text@),
{
    let t = n.text.as_str();
    if n.tag == TAG_OPERATOR {
        if str_eq(t, "") { OpKind::Root }
        else if str_eq(t, "&&") { OpKind::And }
        else if str_eq(t, "||") { OpKind::Or }
        else if str_eq(t, "!") { OpKind::Not }
        else if str_eq(t, "==") { OpKind::Eq }
        else if str_eq(t, "!=") { OpKind::Neq }
        else if str_eq(t, "<") { OpKind::Lt }
        else if str_eq(t, ">") { OpKind::Gt }
        else if str_eq(t, "<=") { OpKind::Leq }
        else if str_eq(t, ">=") { OpKind::Geq }
        else if str_eq(t, ", ") { OpKind::Tuple }
        else { OpKind::Other }
    } else if n.tag == TAG_NEG {
        OpKind::Neg
    } else if n.tag == TAG_VAR {
        OpKind::Var
    } else if n.tag == TAG_FUNC {
        OpKind::Func
    } else if TAG_STR <= n.tag && n.tag <= TAG_VALUE {
        OpKind::Const
    } else {
        OpKind::Other
    }
}

/// Whether a kind is one of the six comparisons.
pub open spec fn is_comparison(k: OpKind) -> bool {
    k is Eq || k is Neq || k is Lt || k is Gt || k is Leq || k is Geq
}

/// Whether a kind is an ordering comparison (`<`, `>`, `<=`, `>=`).
pub open spec fn is_inequality(k: OpKind) -> bool {
    k is Lt || k is Gt || k is Leq || k is Geq
}

/// The SQL operator of a comparison kind.
pub open spec fn comparison_sql(k: OpKind) -> Seq<char> {
    match k {
        OpKind::Eq => "="@,
        OpKind::Neq => "!="@,
        OpKind::Lt => "<"@,
        OpKind::Gt => ">"@,
        OpKind::Leq => "<="@,
        _ => ">="@,
    }
}

fn comparison_sql_exec(k: &OpKind) -> (r: &'static str)
    ensures
        r@ == comparison_sql(*k),
{
    match k {
        OpKind::Eq => "=",
        OpKind::Neq => "!=",
        OpKind::Lt => "<",
        OpKind::Gt => ">",
        OpKind::Leq => "<=",
        _ => ">=",
    }
}

// ---------------------------------------------------------------------------
// Fields
// ---------------------------------------------------------------------------

/// The SQL column of a user-facing field name, if it is one.
pub open spec fn field_column(name: Seq<char>) -> Option<Seq<char>> {
    if name == "done"@ { Some("t.is_done"@) }
    else if name == "due"@ { Some("t.due"@) }
    else if name == "start"@ { Some("t.start"@) }
    else if name == "rank"@ { Some("t.rank"@) }
    else if name == "title"@ { Some("t.title"@) }
    else if name == "milestone"@ { Some("t.milestone"@) }
    else if name == "file"@ { Some("tf.file_path"@) }
    else if name == "id"@ { Some("t.task_id"@) }
    else { None }
}

/// Resolves a user-facing field name to its SQL column.
pub fn resolve_field(name: &str) -> (r: Result<&'static str, FilterExprError>)
    ensures
        r matches Ok(c) ==> field_column(name@) == Some(c@),
        r matches Err(e) ==> field_column(name@) is None && e@ == FilterErrV::UnknownField(name@),
{
    if str_eq(name, "done") { Ok("t.is_done") }
    else if str_eq(name, "due") { Ok("t.due") }
    else if str_eq(name, "start") { Ok("t.start") }
    else if str_eq(name, "rank") { Ok("t.rank") }
    else if str_eq(name, "title") { Ok("t.title") }
    else if str_eq(name, "milestone") { Ok("t.milestone") }
    else if str_eq(name, "file") { Ok("tf.file_path") }
    else if str_eq(name, "id") { Ok("t.task_id") }
    else { Err(FilterExprError::UnknownField(name.to_string())) }
}

/// Fields whose column may be NULL.
pub open spec fn nullable_field(name: Seq<char>) -> bool {
    name == "due"@ || name == "start"@ || name == "rank"@ || name == "id"@ || name == "milestone"@
}

/// Whether a field's column may be NULL.
pub fn is_nullable_field(name: &str) -> (r: bool)
    ensures
        r == nullable_field(name@),
{
    str_eq(name, "due") || str_eq(name, "start") || str_eq(name, "rank") || str_eq(name, "id")
        || str_eq(name, "milestone")
}

/// The 0/1 value of a boolean literal for the `done` field.
pub open spec fn bool_literal_spec(lit: Seq<char>) -> Result<Seq<char>, FilterErrV> {
    if lit == "1"@ || lit == "true"@ {
        Ok("1"@)
    } else if lit == "0"@ || lit == "false"@ {
        Ok("0"@)
    } else {
        Err(FilterErrV::Invalid("done field requires a boolean value, got: "@ + lit))
    }
}

/// Converts a boolean literal for the `done` field to `"1"` or `"0"`.
pub fn bool_literal_to_int(literal: &str) -> (r: Result<String, FilterExprError>)
    ensures
        r matches Ok(s) ==> bool_literal_spec(literal@) == Ok::<Seq<char>, FilterErrV>(s@),
        r matches Err(e) ==> bool_literal_spec(literal@) == Err::<Seq<char>, FilterErrV>(e@),
{
    if str_eq(literal, "1") || str_eq(literal, "true") {
        Ok("1".to_string())
    } else if str_eq(literal, "0") || str_eq(literal, "false") {
        Ok("0".to_string())
    } else {
        let mut m = String::new();
        push_str(&mut m, "done field requires a boolean value, got: ");
        push_str(&mut m, literal);
        Err(FilterExprError::Invalid(m))
    }
}


// ---------------------------------------------------------------------------
// Translation: specification
// ---------------------------------------------------------------------------

/// A fragment as plain values.
pub open spec fn frag(cond: Seq<char>, params: Seq<Seq<char>>, fts: bool) -> FragV {
    FragV { cond, params, fts }
}

/// A translation step's result as plain values.
pub open spec fn tr_view(r: &Result<SqlFragment, FilterExprError>) -> TrV {
    match r {
        Ok(f) => Ok(f@),
        Err(e) => Err(e@),
    }
}

/// Joins two fragments with a boolean SQL operator.
pub open spec fn combine_spec(l: FragV, r: FragV, op: Seq<char>) -> FragV {
    frag("("@ + l.cond + " "@ + op + " "@ + r.cond + ")"@, l.params + r.params, l.fts || r.fts)
}

/// The field name a node denotes (looking through root wrappers).
pub open spec fn identifier_spec(n: Node) -> Result<Seq<char>, FilterErrV>
    decreases n,
{
    let k = op_kind(n.tag, n.text@);
    if k is Root && n.children@.len() == 1 {
        identifier_spec(n.children@[0])
    } else if k is Var {
        Ok(n.text@)
    } else {
        Err(FilterErrV::Invalid("expected a field name, got: "@ + n.debug@))
    }
}

/// A string constant's display text without its enclosing double quotes.
pub open spec fn unquote(t: Seq<char>) -> Seq<char> {
    if t.len() >= 2 { t.subrange(1, t.len() - 1) } else { t }
}

/// Whether a text begins with `(`.
fn starts_with_paren(t: &str) -> (r: bool)
    ensures
        r == (t@.len() > 0 && t@[0] == '('),
{
    let v = chars_of(t);
    v.len() > 0 && v[0] == '('
}

/// The text of a constant node.
pub open spec fn const_literal(n: Node) -> Result<Seq<char>, FilterErrV> {
    if n.tag == TAG_STR {
        Ok(unquote(n.text@))
    } else if n.tag == TAG_VALUE && !(n.text@.len() > 0 && n.text@[0] == '(') {
        Ok(n.text@)
    } else if n.tag == TAG_BOOL {
        Ok(if n.text@ == "true"@ { "1"@ } else { "0"@ })
    } else {
        Err(FilterErrV::Invalid("unsupported literal type (tuple or empty)"@))
    }
}

/// The literal value a node denotes (looking through root wrappers and
/// negation).
pub open spec fn literal_spec(n: Node) -> Result<Seq<char>, FilterErrV>
    decreases n,
{
    let k = op_kind(n.tag, n.text@);
    if k is Root && n.children@.len() == 1 {
        literal_spec(n.children@[0])
    } else if k is Const {
        const_literal(n)
    } else if k is Neg {
        if n.children@.len() == 1 {
            match literal_spec(n.children@[0]) {
                Ok(s) => Ok("-"@ + s),
                Err(e) => Err(e),
            }
        } else {
            Err(FilterErrV::Invalid("malformed negation"@))
        }
    } else {
        Err(FilterErrV::Invalid("expected a literal value, got: "@ + n.debug@))
    }
}

/// The node a chain of single-child root wrappers leads to.
pub open spec fn unwrap_root_spec(n: Node) -> Node
    decreases n,
{
    if op_kind(n.tag, n.text@) is Root && n.children@.len() == 1 {
        unwrap_root_spec(n.children@[0])
    } else {
        n
    }
}

/// SQL of a comparison between a field and a literal.
pub open spec fn comparison_spec(k: OpKind, lhs: Node, rhs: Node) -> TrV {
    match identifier_spec(lhs) {
        Err(e) => Err(e),
        Ok(field) => match literal_spec(rhs) {
            Err(e) => Err(e),
            Ok(lit) => match field_column(field) {
                None => Err(FilterErrV::UnknownField(field)),
                Some(col) => if field == "done"@ {
                    match bool_literal_spec(lit) {
                        Err(e) => Err(e),
                        Ok(v) => Ok(frag(col + " = ?"@, seq![v], false)),
                    }
                } else if nullable_field(field) && is_inequality(k) {
                    Ok(frag(
                        "("@ + col + " IS NOT NULL AND "@ + col + " "@ + comparison_sql(k) + " ?)"@,
                        seq![lit],
                        false,
                    ))
                } else {
                    Ok(frag(col + " "@ + comparison_sql(k) + " ?"@, seq![lit], false))
                },
            },
        },
    }
}

/// SQL of a bare variable: only `done` is boolean.
pub open spec fn bare_spec(id: Seq<char>) -> TrV {
    if id == "done"@ {
        Ok(frag("t.is_done = 1"@, seq![], false))
    } else {
        Err(FilterErrV::Invalid("bare field \""@ + id + "\" is not boolean; use a comparison or function"@))
    }
}

/// The tag-existence subquery.
pub open spec fn tag_exists_sql() -> Seq<char> {
    "EXISTS (SELECT 1 FROM task_properties tp WHERE tp.task_id = t.id AND tp.kind = 'mindtape.tag')"@
}

/// The tag-absence subquery.
pub open spec fn tag_missing_sql() -> Seq<char> {
    "NOT EXISTS (SELECT 1 FROM task_properties tp WHERE tp.task_id = t.id AND tp.kind = 'mindtape.tag')"@
}

/// The specific-tag subquery.
pub open spec fn tag_value_sql() -> Seq<char> {
    "EXISTS (SELECT 1 FROM task_properties tp WHERE tp.task_id = t.id AND tp.kind = 'mindtape.tag' AND tp.value = ?)"@
}

/// SQL of `has(field)`.
pub open spec fn has_spec(f: Seq<char>) -> TrV {
    if f == "due"@ { Ok(frag("t.due IS NOT NULL"@, seq![], false)) }
    else if f == "start"@ { Ok(frag("t.start IS NOT NULL"@, seq![], false)) }
    else if f == "rank"@ { Ok(frag("t.rank IS NOT NULL"@, seq![], false)) }
    else if f == "id"@ { Ok(frag("t.task_id IS NOT NULL"@, seq![], false)) }
    else if f == "tag"@ { Ok(frag(tag_exists_sql(), seq![], false)) }
    else { Err(FilterErrV::UnknownField("has("@ + f + "): unknown property"@)) }
}

/// SQL of `miss(field)`.
pub open spec fn miss_spec(f: Seq<char>) -> TrV {
    if f == "due"@ { Ok(frag("t.due IS NULL"@, seq![], false)) }
    else if f == "start"@ { Ok(frag("t.start IS NULL"@, seq![], false)) }
    else if f == "rank"@ { Ok(frag("t.rank IS NULL"@, seq![], false)) }
    else if f == "id"@ { Ok(frag("t.task_id IS NULL"@, seq![], false)) }
    else if f == "tag"@ { Ok(frag(tag_missing_sql(), seq![], false)) }
    else { Err(FilterErrV::UnknownField("miss("@ + f + "): unknown property"@)) }
}

/// The error for a one-argument function called with another count.
pub open spec fn arity_error(name: Seq<char>, got: nat) -> FilterErrV {
    FilterErrV::Invalid(name + "() requires exactly 1 argument, got "@ + dec_nat(got))
}

/// SQL of a function call node `n` named `name`.
pub open spec fn function_spec(name: Seq<char>, n: Node) -> TrV {
    let len = n.children@.len();
    if name == "has"@ || name == "miss"@ || name == "has_tag"@ || name == "search"@ {
        if len != 1 {
            Err(arity_error(name, len))
        } else {
            let arg = n.children@[0];
            if name == "has"@ || name == "miss"@ {
                match identifier_spec(arg) {
                    Err(e) => Err(e),
                    Ok(f) => if name == "has"@ { has_spec(f) } else { miss_spec(f) },
                }
            } else {
                match literal_spec(arg) {
                    Err(e) => Err(e),
                    Ok(v) => if name == "has_tag"@ {
                        Ok(frag(tag_value_sql(), seq![v], false))
                    } else {
                        Ok(frag("tasks_fts MATCH ?"@, seq![v], true))
                    },
                }
            }
        }
    } else if name == "contains"@ {
        let u = unwrap_root_spec(n.children@[0]);
        if len == 1 && op_kind(u.tag, u.text@) is Tuple && u.children@.len() == 2 {
            match identifier_spec(u.children@[0]) {
                Err(e) => Err(e),
                Ok(f) => match literal_spec(u.children@[1]) {
                    Err(e) => Err(e),
                    Ok(v) => match field_column(f) {
                        None => Err(FilterErrV::UnknownField(f)),
                        Some(col) => Ok(frag(col + " LIKE '%' || ? || '%' COLLATE NOCASE"@, seq![v], false)),
                    },
                },
            }
        } else {
            Err(FilterErrV::Invalid("contains() requires exactly 2 arguments"@))
        }
    } else {
        Err(FilterErrV::Invalid("unknown function: "@ + name))
    }
}

/// The translation of an expression tree into SQL.
pub open spec fn translate_spec(n: Node) -> TrV
    decreases n,
{
    let k = op_kind(n.tag, n.text@);
    let len = n.children@.len();
    if k is Root {
        if len == 1 {
            translate_spec(n.children@[0])
        } else {
            Err(FilterErrV::Invalid("root node must have exactly one child"@))
        }
    } else if k is And || k is Or {
        let op = if k is And { "AND"@ } else { "OR"@ };
        if len == 2 {
            match translate_spec(n.children@[0]) {
                Err(e) => Err(e),
                Ok(l) => match translate_spec(n.children@[1]) {
                    Err(e) => Err(e),
                    Ok(r) => Ok(combine_spec(l, r, op)),
                },
            }
        } else {
            Err(FilterErrV::Invalid(op + " requires exactly 2 operands"@))
        }
    } else if k is Not {
        if len == 1 {
            match translate_spec(n.children@[0]) {
                Err(e) => Err(e),
                Ok(f) => Ok(frag("NOT ("@ + f.cond + ")"@, f.params, f.fts)),
            }
        } else {
            Err(FilterErrV::Invalid("NOT requires exactly 1 operand"@))
        }
    } else if is_comparison(k) {
        if len == 2 {
            comparison_spec(k, n.children@[0], n.children@[1])
        } else {
            Err(FilterErrV::Invalid("comparison requires exactly 2 operands"@))
        }
    } else if k is Var {
        bare_spec(n.text@)
    } else if k is Func {
        function_spec(n.text@, n)
    } else {
        Err(FilterErrV::UnsupportedOperator(n.debug@))
    }
}


// ---------------------------------------------------------------------------
// Translation: implementation
// ---------------------------------------------------------------------------

/// A string result as plain values.
pub open spec fn str_view(r: &Result<String, FilterExprError>) -> Result<Seq<char>, FilterErrV> {
    match r {
        Ok(s) => Ok(s@),
        Err(e) => Err(e@),
    }
}

fn invalid1(a: &str) -> (e: FilterExprError)
    ensures
        e@ == FilterErrV::Invalid(a@),
{
    FilterExprError::Invalid(a.to_string())
}

fn invalid2(a: &str, b: &str) -> (e: FilterExprError)
    ensures
        e@ == FilterErrV::Invalid(a@ + b@),
{
    let mut m = String::new();
    push_str(&mut m, a);
    push_str(&mut m, b);
    FilterExprError::Invalid(m)
}

fn invalid(a: &str, b: &str, c: &str) -> (e: FilterExprError)
    ensures
        e@ == FilterErrV::Invalid(a@ + b@ + c@),
{
    let mut m = String::new();
    push_str(&mut m, a);
    push_str(&mut m, b);
    push_str(&mut m, c);
    FilterExprError::Invalid(m)
}

fn fragment(cond: String, params: Vec<String>, fts: bool) -> (f: SqlFragment)
    ensures
        f@ == frag(cond@, params@.map_values(|s: String| s@), fts),
{
    SqlFragment { condition: cond, params, needs_fts_join: fts }
}

fn one_param(v: String) -> (p: Vec<String>)
    ensures
        p@.map_values(|s: String| s@) == seq![v@],
{
    let mut p = Vec::new();
    p.push(v);
    assert(p@.map_values(|s: String| s@) =~= seq![v@]);
    p
}

/// A fragment with a fixed condition and no parameters.
pub fn sql_no_params(condition: &str) -> (f: SqlFragment)
    ensures
        f@ == frag(condition@, seq![], false),
{
    let p: Vec<String> = Vec::new();
    assert(p@.map_values(|s: String| s@) =~= Seq::<Seq<char>>::empty());
    fragment(condition.to_string(), p, false)
}

impl SqlFragment {
    /// Joins two fragments as `(left op right)`, keeping their parameters in
    /// order.
    pub fn combine(left: Self, right: Self, op: &str) -> (f: Self)
        ensures
            f@ == combine_spec(left@, right@, op@),
    {
        let SqlFragment { condition: lc, params: mut lp, needs_fts_join: lf } = left;
        let SqlFragment { condition: rc, params: mut rp, needs_fts_join: rf } = right;
        let ghost lpv = lp@;
        let ghost rpv = rp@;
        lp.append(&mut rp);
        assert(lp@.map_values(|s: String| s@) =~= lpv.map_values(|s: String| s@) + rpv.map_values(
            |s: String| s@,
        ));
        let mut c = String::new();
        push_str(&mut c, "(");
        push_str(&mut c, lc.as_str());
        push_str(&mut c, " ");
        push_str(&mut c, op);
        push_str(&mut c, " ");
        push_str(&mut c, rc.as_str());
        push_str(&mut c, ")");
        SqlFragment { condition: c, params: lp, needs_fts_join: lf || rf }
    }
}

/// Looks through single-child root wrappers.
pub fn unwrap_root(n: &Node) -> (r: &Node)
    ensures
        *r == unwrap_root_spec(*n),
    decreases n,
{
    let k = node_kind(n);
    if matches!(k, OpKind::Root) && n.children.len() == 1 {
        unwrap_root(&n.children[0])
    } else {
        n
    }
}

/// Extracts the field name a node denotes.
pub fn extract_identifier(n: &Node) -> (r: Result<String, FilterExprError>)
    ensures
        str_view(&r) == identifier_spec(*n),
    decreases n,
{
    let k = node_kind(n);
    if matches!(k, OpKind::Root) && n.children.len() == 1 {
        extract_identifier(&n.children[0])
    } else if matches!(k, OpKind::Var) {
        Ok(n.text.clone())
    } else {
        Err(invalid2("expected a field name, got: ", n.debug.as_str()))
    }
}

/// The text of a constant node.
pub fn value_to_string(n: &Node) -> (r: Result<String, FilterExprError>)
    ensures
        str_view(&r) == const_literal(*n),
{
    if n.tag == TAG_STR {
        let v = chars_of(n.text.as_str());
        if v.len() >= 2 {
            Ok(string_of(&slice_vec(&v, 1, v.len() - 1)))
        } else {
            Ok(string_of(&v))
        }
    } else if n.tag == TAG_VALUE && !starts_with_paren(n.text.as_str()) {
        Ok(n.text.clone())
    } else if n.tag == TAG_BOOL {
        if str_eq(n.text.as_str(), "true") {
            Ok("1".to_string())
        } else {
            Ok("0".to_string())
        }
    } else {
        Err(invalid1("unsupported literal type (tuple or empty)"))
    }
}

/// Extracts the literal value a node denotes.
pub fn extract_literal(n: &Node) -> (r: Result<String, FilterExprError>)
    ensures
        str_view(&r) == literal_spec(*n),
    decreases n,
{
    let k = node_kind(n);
    if matches!(k, OpKind::Root) && n.children.len() == 1 {
        extract_literal(&n.children[0])
    } else if matches!(k, OpKind::Const) {
        value_to_string(n)
    } else if matches!(k, OpKind::Neg) {
        if n.children.len() == 1 {
            let inner = extract_literal(&n.children[0])?;
            let mut m = String::new();
            push_str(&mut m, "-");
            push_str(&mut m, inner.as_str());
            Ok(m)
        } else {
            Err(invalid1("malformed negation"))
        }
    } else {
        Err(invalid2("expected a literal value, got: ", n.debug.as_str()))
    }
}

fn build_comparison(k: &OpKind, lhs: &Node, rhs: &Node) -> (r: Result<SqlFragment, FilterExprError>)
    requires
        is_comparison(*k),
    ensures
        tr_view(&r) == comparison_spec(*k, *lhs, *rhs),
{
    let field_name = extract_identifier(lhs)?;
    let literal = extract_literal(rhs)?;
    let col = resolve_field(field_name.as_str())?;
    let sql_op = comparison_sql_exec(k);
    if str_eq(field_name.as_str(), "done") {
        let int_val = bool_literal_to_int(literal.as_str())?;
        let mut c = String::new();
        push_str(&mut c, col);
        push_str(&mut c, " = ?");
        return Ok(fragment(c, one_param(int_val), false));
    }
    let ineq = match k {
        OpKind::Lt | OpKind::Gt | OpKind::Leq | OpKind::Geq => true,
        _ => false,
    };
    let mut c = String::new();
    if is_nullable_field(field_name.as_str()) && ineq {
        push_str(&mut c, "(");
        push_str(&mut c, col);
        push_str(&mut c, " IS NOT NULL AND ");
        push_str(&mut c, col);
        push_str(&mut c, " ");
        push_str(&mut c, sql_op);
        push_str(&mut c, " ?)");
    } else {
        push_str(&mut c, col);
        push_str(&mut c, " ");
        push_str(&mut c, sql_op);
        push_str(&mut c, " ?");
    }
    Ok(fragment(c, one_param(literal), false))
}

/// Translates a bare variable (only `done` is allowed).
pub fn translate_bare_variable(identifier: &str) -> (r: Result<SqlFragment, FilterExprError>)
    ensures
        tr_view(&r) == bare_spec(identifier@),
{
    if str_eq(identifier, "done") {
        return Ok(sql_no_params("t.is_done = 1"));
    }
    Err(invalid("bare field \"", identifier, "\" is not boolean; use a comparison or function"))
}

fn has_or_miss(has: bool, field: &str) -> (r: Result<SqlFragment, FilterExprError>)
    ensures
        tr_view(&r) == if has { has_spec(field@) } else { miss_spec(field@) },
{
    if has {
        if str_eq(field, "due") { Ok(sql_no_params("t.due IS NOT NULL")) }
        else if str_eq(field, "start") { Ok(sql_no_params("t.start IS NOT NULL")) }
        else if str_eq(field, "rank") { Ok(sql_no_params("t.rank IS NOT NULL")) }
        else if str_eq(field, "id") { Ok(sql_no_params("t.task_id IS NOT NULL")) }
        else if str_eq(field, "tag") {
            Ok(sql_no_params("EXISTS (SELECT 1 FROM task_properties tp WHERE tp.task_id = t.id AND tp.kind = 'mindtape.tag')"))
        } else {
            let mut m = String::new();
            push_str(&mut m, "has(");
            push_str(&mut m, field);
            push_str(&mut m, "): unknown property");
            Err(FilterExprError::UnknownField(m))
        }
    } else {
        if str_eq(field, "due") { Ok(sql_no_params("t.due IS NULL")) }
        else if str_eq(field, "start") { Ok(sql_no_params("t.start IS NULL")) }
        else if str_eq(field, "rank") { Ok(sql_no_params("t.rank IS NULL")) }
        else if str_eq(field, "id") { Ok(sql_no_params("t.task_id IS NULL")) }
        else if str_eq(field, "tag") {
            Ok(sql_no_params("NOT EXISTS (SELECT 1 FROM task_properties tp WHERE tp.task_id = t.id AND tp.kind = 'mindtape.tag')"))
        } else {
            let mut m = String::new();
            push_str(&mut m, "miss(");
            push_str(&mut m, field);
            push_str(&mut m, "): unknown property");
            Err(FilterExprError::UnknownField(m))
        }
    }
}

fn translate_function(name: &str, n: &Node) -> (r: Result<SqlFragment, FilterExprError>)
    ensures
        tr_view(&r) == function_spec(name@, *n),
{
    let len = n.children.len();
    let is_has = str_eq(name, "has");
    let is_miss = str_eq(name, "miss");
    let is_has_tag = str_eq(name, "has_tag");
    let is_search = str_eq(name, "search");
    if is_has || is_miss || is_has_tag || is_search {
        if len != 1 {
            let mut m = String::new();
            push_str(&mut m, name);
            push_str(&mut m, "() requires exactly 1 argument, got ");
            crate::text::push_u64(&mut m, len as u64);
            return Err(FilterExprError::Invalid(m));
        }
        let arg = &n.children[0];
        if is_has || is_miss {
            let field = extract_identifier(arg)?;
            has_or_miss(is_has, field.as_str())
        } else {
            let v = extract_literal(arg)?;
            if is_has_tag {
                Ok(fragment(
                    "EXISTS (SELECT 1 FROM task_properties tp WHERE tp.task_id = t.id AND tp.kind = 'mindtape.tag' AND tp.value = ?)".to_string(),
                    one_param(v),
                    false,
                ))
            } else {
                Ok(fragment("tasks_fts MATCH ?".to_string(), one_param(v), true))
            }
        }
    } else if str_eq(name, "contains") {
        if len == 1 {
            let u = unwrap_root(&n.children[0]);
            let uk = node_kind(u);
            if matches!(uk, OpKind::Tuple) && u.children.len() == 2 {
                let field = extract_identifier(&u.children[0])?;
                let v = extract_literal(&u.children[1])?;
                let col = resolve_field(field.as_str())?;
                let mut c = String::new();
                push_str(&mut c, col);
                push_str(&mut c, " LIKE '%' || ? || '%' COLLATE NOCASE");
                return Ok(fragment(c, one_param(v), false));
            }
        }
        Err(invalid1("contains() requires exactly 2 arguments"))
    } else {
        Err(invalid2("unknown function: ", name))
    }
}

/// Translates an expression tree into a SQL fragment.
pub fn translate_node(n: &Node) -> (r: Result<SqlFragment, FilterExprError>)
    ensures
        tr_view(&r) == translate_spec(*n),
    decreases n,
{
    let k = node_kind(n);
    let len = n.children.len();
    match k {
        OpKind::Root => {
            if len == 1 {
                translate_node(&n.children[0])
            } else {
                Err(invalid1("root node must have exactly one child"))
            }
        },
        OpKind::And | OpKind::Or => {
            let op = if matches!(k, OpKind::And) { "AND" } else { "OR" };
            if len == 2 {
                let left = translate_node(&n.children[0])?;
                let right = translate_node(&n.children[1])?;
                Ok(SqlFragment::combine(left, right, op))
            } else {
                Err(invalid2(op, " requires exactly 2 operands"))
            }
        },
        OpKind::Not => {
            if len == 1 {
                let inner = translate_node(&n.children[0])?;
                let mut c = String::new();
                push_str(&mut c, "NOT (");
                push_str(&mut c, inner.condition.as_str());
                push_str(&mut c, ")");
                Ok(SqlFragment { condition: c, params: inner.params, needs_fts_join: inner.needs_fts_join })
            } else {
                Err(invalid1("NOT requires exactly 1 operand"))
            }
        },
        OpKind::Eq | OpKind::Neq | OpKind::Lt | OpKind::Gt | OpKind::Leq | OpKind::Geq => {
            if len == 2 {
                build_comparison(&k, &n.children[0], &n.children[1])
            } else {
                Err(invalid1("comparison requires exactly 2 operands"))
            }
        },
        OpKind::Var => translate_bare_variable(n.text.as_str()),
        OpKind::Func => translate_function(n.text.as_str(), n),
        _ => Err(FilterExprError::UnsupportedOperator(n.debug.clone())),
    }
}


// ---------------------------------------------------------------------------
// Rebuilding the tree and the entry point
// ---------------------------------------------------------------------------

/// The pre-order form of a list of trees, one after the other.
pub open spec fn preorder_seq(cs: Seq<Node>) -> Seq<FlatV>
    decreases cs.len(),
{
    if cs.len() == 0 {
        Seq::empty()
    } else {
        preorder_seq(cs.drop_last()) + preorder(cs.last())
    }
}

proof fn lemma_preorder_children(n: Node, k: int)
    requires
        0 <= k <= n.children@.len(),
    ensures
        preorder_children(n, k) == preorder_seq(n.children@.subrange(k, n.children@.len() as int)),
    decreases n.children@.len() - k,
{
    let cs = n.children@;
    if k < cs.len() {
        lemma_preorder_children(n, k + 1);
        lemma_preorder_seq_cons(cs[k], cs.subrange(k + 1, cs.len() as int));
        assert(seq![cs[k]] + cs.subrange(k + 1, cs.len() as int) =~= cs.subrange(k, cs.len() as int));
    } else {
        assert(cs.subrange(k, cs.len() as int) =~= Seq::<Node>::empty());
    }
}

proof fn lemma_preorder_seq_cons(h: Node, t: Seq<Node>)
    ensures
        preorder_seq(seq![h] + t) == preorder(h) + preorder_seq(t),
    decreases t.len(),
{
    if t.len() == 0 {
        assert(seq![h] + t =~= seq![h]);
        assert(seq![h].drop_last() =~= Seq::<Node>::empty());
        assert(preorder_seq(Seq::<Node>::empty()) =~= Seq::<FlatV>::empty());
        assert(preorder(h) + preorder_seq(t) =~= preorder(h));
        assert(preorder_seq(seq![h]) =~= preorder(h));
    } else {
        lemma_preorder_seq_cons(h, t.drop_last());
        assert((seq![h] + t).drop_last() =~= seq![h] + t.drop_last());
        assert((seq![h] + t).last() == t.last());
        assert(preorder_seq(seq![h] + t) =~= preorder(h) + preorder_seq(t));
    }
}

/// The pre-order sequence as plain values.
pub open spec fn flat_view(v: Seq<FlatNode>) -> Seq<FlatV> {
    v.map_values(|f: FlatNode| f@)
}

/// The pre-order form of `t` occurs in `fv` at `pos`.
pub open spec fn tree_at(fv: Seq<FlatV>, pos: int, t: Node) -> bool {
    0 <= pos && pos + preorder(t).len() <= fv.len() && fv.subrange(pos, pos + preorder(t).len()) == preorder(t)
}

/// No tree's pre-order form is a proper prefix of another's: when two
/// trees' forms start two equal sequences, the forms are equal, and so are
/// their heads and their children's forms.
proof fn lemma_prefix_free(a: Node, b: Node, x: Seq<FlatV>, y: Seq<FlatV>)
    requires
        preorder(a) + x == preorder(b) + y,
    ensures
        preorder(a) == preorder(b),
        x == y,
        a.tag == b.tag,
        a.text@ == b.text@,
        a.debug@ == b.debug@,
        a.children@.len() == b.children@.len(),
        forall|j: int| 0 <= j < a.children@.len() ==> preorder(#[trigger] a.children@[j]) == preorder(b.children@[j]),
    decreases a, a.children@.len() + 1,
{
    assert((preorder(a) + x)[0] == preorder(a)[0]);
    assert((preorder(b) + y)[0] == preorder(b)[0]);
    assert((preorder(a) + x).drop_first() =~= preorder_children(a, 0) + x);
    assert((preorder(b) + y).drop_first() =~= preorder_children(b, 0) + y);
    lemma_children_prefix(a, b, 0, x, y);
    assert(preorder(a) =~= preorder(b));
}

proof fn lemma_children_prefix(a: Node, b: Node, j: int, x: Seq<FlatV>, y: Seq<FlatV>)
    requires
        0 <= j <= a.children@.len(),
        a.children@.len() == b.children@.len(),
        preorder_children(a, j) + x == preorder_children(b, j) + y,
    ensures
        preorder_children(a, j) == preorder_children(b, j),
        x == y,
        forall|i: int| j <= i < a.children@.len() ==> preorder(#[trigger] a.children@[i]) == preorder(b.children@[i]),
    decreases a, a.children@.len() - j,
{
    if j < a.children@.len() {
        let ca = a.children@[j];
        let cb = b.children@[j];
        let xa = preorder_children(a, j + 1) + x;
        let yb = preorder_children(b, j + 1) + y;
        assert(preorder_children(a, j) + x =~= preorder(ca) + xa);
        assert(preorder_children(b, j) + y =~= preorder(cb) + yb);
        lemma_prefix_free(ca, cb, xa, yb);
        lemma_children_prefix(a, b, j + 1, x, y);
    } else {
        assert(preorder_children(a, j) =~= Seq::<FlatV>::empty());
        assert(preorder_children(b, j) =~= Seq::<FlatV>::empty());
        assert(x =~= preorder_children(a, j) + x);
        assert(y =~= preorder_children(b, j) + y);
    }
}

/// Trees with the same pre-order form agree on their heads and children.
proof fn lemma_same_form(a: Node, b: Node)
    requires
        preorder(a) == preorder(b),
    ensures
        a.tag == b.tag,
        a.text@ == b.text@,
        a.debug@ == b.debug@,
        a.children@.len() == b.children@.len(),
        forall|j: int| 0 <= j < a.children@.len() ==> preorder(#[trigger] a.children@[j]) == preorder(b.children@[j]),
{
    assert(preorder(a) + Seq::<FlatV>::empty() =~= preorder(b) + Seq::<FlatV>::empty());
    lemma_prefix_free(a, b, Seq::empty(), Seq::empty());
}

proof fn lemma_identifier_same(a: Node, b: Node)
    requires
        preorder(a) == preorder(b),
    ensures
        identifier_spec(a) == identifier_spec(b),
    decreases a,
{
    lemma_same_form(a, b);
    if a.children@.len() == 1 {
        lemma_identifier_same(a.children@[0], b.children@[0]);
    }
}

proof fn lemma_literal_same(a: Node, b: Node)
    requires
        preorder(a) == preorder(b),
    ensures
        literal_spec(a) == literal_spec(b),
    decreases a,
{
    lemma_same_form(a, b);
    if a.children@.len() == 1 {
        lemma_literal_same(a.children@[0], b.children@[0]);
    }
}

proof fn lemma_unwrap_same(a: Node, b: Node)
    requires
        preorder(a) == preorder(b),
    ensures
        preorder(unwrap_root_spec(a)) == preorder(unwrap_root_spec(b)),
    decreases a,
{
    lemma_same_form(a, b);
    if a.children@.len() == 1 {
        lemma_unwrap_same(a.children@[0], b.children@[0]);
    }
}

proof fn lemma_function_same(name: Seq<char>, a: Node, b: Node)
    requires
        preorder(a) == preorder(b),
    ensures
        function_spec(name, a) == function_spec(name, b),
{
    lemma_same_form(a, b);
    if a.children@.len() >= 1 {
        lemma_identifier_same(a.children@[0], b.children@[0]);
        lemma_literal_same(a.children@[0], b.children@[0]);
        lemma_unwrap_same(a.children@[0], b.children@[0]);
        let ua = unwrap_root_spec(a.children@[0]);
        let ub = unwrap_root_spec(b.children@[0]);
        lemma_same_form(ua, ub);
        if ua.children@.len() == 2 {
            lemma_identifier_same(ua.children@[0], ub.children@[0]);
            lemma_literal_same(ua.children@[1], ub.children@[1]);
        }
    }
}

/// The translation of a tree depends only on its pre-order form.
proof fn lemma_translate_same(a: Node, b: Node)
    requires
        preorder(a) == preorder(b),
    ensures
        translate_spec(a) == translate_spec(b),
    decreases a,
{
    lemma_same_form(a, b);
    let len = a.children@.len();
    if len >= 1 {
        lemma_translate_same(a.children@[0], b.children@[0]);
    }
    if len >= 2 {
        lemma_translate_same(a.children@[1], b.children@[1]);
        lemma_identifier_same(a.children@[0], b.children@[0]);
        lemma_literal_same(a.children@[1], b.children@[1]);
    }
    lemma_function_same(a.text@, a, b);
}

/// Rebuilds the subtree whose pre-order form starts at `pos`; returns it
/// with the position just after it.
fn build_at(flat: &Vec<FlatNode>, pos: usize, Ghost(t): Ghost<Node>) -> (r: Option<(Node, usize)>)
    requires
        pos < flat.len(),
    ensures
        r matches Some((n, end)) ==> pos < end <= flat.len() && preorder(n) == flat_view(
            flat@,
        ).subrange(pos as int, end as int),
        tree_at(flat_view(flat@), pos as int, t) ==> (r matches Some((n, end)) && end == pos
            + preorder(t).len()),
    decreases flat.len() - pos,
{
    let head = &flat[pos];
    let mut children: Vec<Node> = Vec::new();
    let mut p = pos + 1;
    let mut k: usize = 0;
    let ghost fv = flat_view(flat@);
    let ghost at = tree_at(fv, pos as int, t);
    let ghost stop = pos + preorder(t).len();
    proof {
        if at {
            assert(fv[pos as int] == preorder(t)[0]);
            assert(fv.subrange(pos + 1, stop) =~= preorder(t).drop_first());
            assert(preorder(t).drop_first() =~= preorder_children(t, 0));
        }
    }
    while k < head.arity
        invariant
            pos < p <= flat.len(),
            pos < flat.len(),
            fv == flat_view(flat@),
            head == &flat@[pos as int],
            children@.len() == k,
            k <= head.arity,
            preorder_seq(children@) == fv.subrange(pos + 1, p as int),
            at == tree_at(fv, pos as int, t),
            stop == pos + preorder(t).len(),
            at ==> head.arity == t.children@.len() && p <= stop && stop <= flat.len()
                && fv.subrange(p as int, stop) == preorder_children(t, k as int),
        decreases head.arity - k,
    {
        let ghost ck = t.children@[k as int];
        proof {
            if at {
                assert(preorder_children(t, k as int) == preorder(ck) + preorder_children(t, k + 1));
                assert(preorder(ck).len() > 0);
                assert(fv.subrange(p as int, p + preorder(ck).len()) =~= fv.subrange(p as int, stop).subrange(
                    0,
                    preorder(ck).len() as int,
                ));
                assert((preorder(ck) + preorder_children(t, k + 1)).subrange(0, preorder(ck).len() as int)
                    =~= preorder(ck));
                assert(fv.subrange(p as int, stop).len() == preorder_children(t, k as int).len());
                assert(tree_at(fv, p as int, ck));
            }
        }
        if p >= flat.len() {
            return None;
        }
        match build_at(flat, p, Ghost(ck)) {
            None => {
                return None;
            },
            Some((c, end)) => {
                let ghost old_children = children@;
                children.push(c);
                proof {
                    assert(children@.drop_last() =~= old_children);
                    assert(fv.subrange(pos + 1, end as int) =~= fv.subrange(pos + 1, p as int)
                        + fv.subrange(p as int, end as int));
                    if at {
                        assert(fv.subrange(end as int, stop) =~= fv.subrange(p as int, stop).subrange(
                            preorder(ck).len() as int,
                            stop - p,
                        ));
                    }
                }
                p = end;
                k = k + 1;
            },
        }
    }
    proof {
        if at {
            assert(fv.subrange(p as int, stop).len() == 0);
        }
    }
    let n = Node {
        tag: head.tag,
        text: head.text.clone(),
        debug: head.debug.clone(),
        children,
    };
    proof {
        lemma_preorder_children(n, 0);
        assert(n.children@.subrange(0, n.children@.len() as int) =~= n.children@);
        assert(fv[pos as int] == flat@[pos as int]@);
        assert(preorder(n) =~= fv.subrange(pos as int, p as int));
    }
    Some((n, p))
}

/// Rebuilds the tree whose pre-order form is `flat`, if `flat` is exactly
/// one tree.
pub fn rebuild_tree(flat: &Vec<FlatNode>) -> (r: Option<Node>)
    ensures
        r matches Some(n) ==> preorder(n) == flat_view(flat@),
        (exists|t: Node| #[trigger] preorder(t) == flat_view(flat@)) ==> r is Some,
{
    let ghost t = choose|t: Node| #[trigger] preorder(t) == flat_view(flat@);
    proof {
        if exists|t: Node| #[trigger] preorder(t) == flat_view(flat@) {
            assert(preorder(t).len() > 0);
            assert(flat_view(flat@).subrange(0, preorder(t).len() as int) =~= flat_view(flat@));
        }
    }
    if flat.len() == 0 {
        return None;
    }
    match build_at(flat, 0, Ghost(t)) {
        Some((n, end)) => {
            if end == flat.len() {
                assert(flat_view(flat@).subrange(0, end as int) =~= flat_view(flat@));
                Some(n)
            } else {
                None
            }
        },
        None => None,
    }
}

/// The translation of an expression text: the parser's error, the
/// translation of the tree whose pre-order form the parser gave, or an
/// error when that form is no tree.
pub open spec fn expr_translation(e: Seq<char>) -> TrV {
    match evalexpr_preorder(e) {
        Err(m) => Err(FilterErrV::Parse(m)),
        Ok(f) => if exists|t: Node| #[trigger] preorder(t) == f {
            translate_spec(choose|t: Node| #[trigger] preorder(t) == f)
        } else {
            Err(FilterErrV::Parse("malformed expression tree"@))
        },
    }
}

/// Parses an expression and translates it into a SQL WHERE fragment.
///
/// A parse failure gives `FilterExprError::Parse` with the parser's
/// message; otherwise the result is the translation of the parsed tree.
pub fn translate_expr(expr: &str) -> (r: Result<SqlFragment, FilterExprError>)
    ensures
        evalexpr_preorder(expr@) matches Err(m) ==> tr_view(&r) == Err::<FragV, FilterErrV>(
            FilterErrV::Parse(m),
        ),
        evalexpr_preorder(expr@) matches Ok(f) ==> forall|t: Node|
            #[trigger] preorder(t) == f ==> tr_view(&r) == translate_spec(t),
        evalexpr_preorder(expr@) matches Ok(f) ==> (!(exists|t: Node| #[trigger] preorder(t) == f)
            ==> tr_view(&r) == Err::<FragV, FilterErrV>(FilterErrV::Parse("malformed expression tree"@))),
        r matches Ok(frag) ==> placeholders(frag@),
        tr_view(&r) == expr_translation(expr@),
        tr_view(&r) matches Ok(f) ==> (evalexpr_preorder(expr@) matches Ok(fl) && (f.fts <==> calls_search(
            fl,
        ))),
        tr_view(&r) matches Ok(f) ==> (evalexpr_preorder(expr@) matches Ok(fl) && forall|t: Node|
            #[trigger] preorder(t) == fl ==> params_in_order(f.params, literal_values(t))),
{
    match parse_preorder(expr) {
        Err(m) => Err(FilterExprError::Parse(m)),
        Ok(flat) => match rebuild_tree(&flat) {
            None => Err(FilterExprError::Parse("malformed expression tree".to_string())),
            Some(tree) => {
                let r = translate_node(&tree);
                proof {
                    if r is Ok {
                        law_placeholders(tree);
                    }
                    assert forall|t: Node| #[trigger] preorder(t) == flat_view(flat@) implies tr_view(&r)
                        == translate_spec(t) by {
                        lemma_translate_same(tree, t);
                    }
                    assert(flat_view(flat@) == flat@.map_values(|f: FlatNode| f@));
                    lemma_shaped_from_flat(tree);
                    law_fts_join(tree);
                    lemma_search_from_flat(tree);
                    assert forall|t: Node| #[trigger] preorder(t) == flat_view(flat@) && r is Ok implies params_in_order(
                        r->Ok_0@.params,
                        literal_values(t),
                    ) by {
                        lemma_translate_same(tree, t);
                        lemma_shaped_from_flat(t);
                        law_params_in_source_order(t);
                    }
                }
                r
            },
        },
    }
}

// ---------------------------------------------------------------------------
// Placeholders and parameters
// ---------------------------------------------------------------------------

/// The number of `?` placeholders in a SQL text.
pub open spec fn qcount(s: Seq<char>) -> nat
    decreases s.len(),
{
    if s.len() == 0 {
        0
    } else {
        qcount(s.drop_last()) + if s.last() == '?' { 1nat } else { 0nat }
    }
}

/// A fragment binds exactly one parameter per `?` placeholder.
pub open spec fn placeholders(f: FragV) -> bool {
    qcount(f.cond) == f.params.len()
}

/// `qcount` adds up over concatenation.
pub proof fn lemma_qcount_concat(a: Seq<char>, b: Seq<char>)
    ensures
        qcount(a + b) == qcount(a) + qcount(b),
    decreases b.len(),
{
    if b.len() == 0 {
        assert(a + b =~= a);
    } else {
        lemma_qcount_concat(a, b.drop_last());
        assert((a + b).drop_last() =~= a + b.drop_last());
    }
}


/// A text without `?` has no placeholders.
pub proof fn lemma_no_q(s: Seq<char>)
    requires
        forall|i: int| 0 <= i < s.len() ==> s[i] != '?',
    ensures
        qcount(s) == 0,
    decreases s.len(),
{
    if s.len() > 0 {
        lemma_no_q(s.drop_last());
    }
}

proof fn lemma_one_q(a: Seq<char>, b: Seq<char>)
    requires
        forall|i: int| 0 <= i < a.len() ==> a[i] != '?',
        forall|i: int| 0 <= i < b.len() ==> b[i] != '?',
    ensures
        qcount(a + seq!['?'] + b) == 1,
{
    lemma_no_q(a);
    lemma_no_q(b);
    lemma_qcount_concat(a, seq!['?']);
    lemma_qcount_concat(a + seq!['?'], b);
    assert(seq!['?'].drop_last() =~= Seq::<char>::empty());
    assert(qcount(Seq::<char>::empty()) == 0);
    assert(seq!['?'].last() == '?');
    assert(qcount(seq!['?']) == 1);
}

proof fn lemma_column_no_q(f: Seq<char>)
    ensures
        field_column(f) matches Some(c) ==> qcount(c) == 0,
{
    reveal_strlit("t.is_done");
    reveal_strlit("t.due");
    reveal_strlit("t.start");
    reveal_strlit("t.rank");
    reveal_strlit("t.title");
    reveal_strlit("t.milestone");
    reveal_strlit("tf.file_path");
    reveal_strlit("t.task_id");
    if let Some(c) = field_column(f) {
        lemma_no_q(c);
    }
}

proof fn lemma_fixed_texts()
    ensures
        qcount("t.due IS NOT NULL"@) == 0,
        qcount("t.start IS NOT NULL"@) == 0,
        qcount("t.rank IS NOT NULL"@) == 0,
        qcount("t.task_id IS NOT NULL"@) == 0,
        qcount("t.due IS NULL"@) == 0,
        qcount("t.start IS NULL"@) == 0,
        qcount("t.rank IS NULL"@) == 0,
        qcount("t.task_id IS NULL"@) == 0,
        qcount("t.is_done = 1"@) == 0,
        qcount(tag_exists_sql()) == 0,
        qcount(tag_missing_sql()) == 0,
        qcount(tag_value_sql()) == 1,
        qcount("tasks_fts MATCH ?"@) == 1,
        qcount(" = ?"@) == 1,
        qcount(" ?"@) == 1,
        qcount(" ?)"@) == 1,
        qcount(" LIKE '%' || ? || '%' COLLATE NOCASE"@) == 1,
        qcount("("@) == 0,
        qcount(")"@) == 0,
        qcount(" "@) == 0,
        qcount(" IS NOT NULL AND "@) == 0,
        qcount("NOT ("@) == 0,
        qcount("AND"@) == 0,
        qcount("OR"@) == 0,
        qcount("="@) == 0,
        qcount("!="@) == 0,
        qcount("<"@) == 0,
        qcount(">"@) == 0,
        qcount("<="@) == 0,
        qcount(">="@) == 0,
{
    reveal_strlit("t.due IS NOT NULL");
    lemma_no_q("t.due IS NOT NULL"@);
    reveal_strlit("t.start IS NOT NULL");
    lemma_no_q("t.start IS NOT NULL"@);
    reveal_strlit("t.rank IS NOT NULL");
    lemma_no_q("t.rank IS NOT NULL"@);
    reveal_strlit("t.task_id IS NOT NULL");
    lemma_no_q("t.task_id IS NOT NULL"@);
    reveal_strlit("t.due IS NULL");
    lemma_no_q("t.due IS NULL"@);
    reveal_strlit("t.start IS NULL");
    lemma_no_q("t.start IS NULL"@);
    reveal_strlit("t.rank IS NULL");
    lemma_no_q("t.rank IS NULL"@);
    reveal_strlit("t.task_id IS NULL");
    lemma_no_q("t.task_id IS NULL"@);
    reveal_strlit("t.is_done = 1");
    lemma_no_q("t.is_done = 1"@);
    reveal_strlit("EXISTS (SELECT 1 FROM task_properties tp WHERE tp.task_id = t.id AND tp.kind = 'mindtape.tag')");
    lemma_no_q(tag_exists_sql());
    reveal_strlit("NOT EXISTS (SELECT 1 FROM task_properties tp WHERE tp.task_id = t.id AND tp.kind = 'mindtape.tag')");
    lemma_no_q(tag_missing_sql());
    reveal_strlit("EXISTS (SELECT 1 FROM task_properties tp WHERE tp.task_id = t.id AND tp.kind = 'mindtape.tag' AND tp.value = ?)");
    reveal_strlit("EXISTS (SELECT 1 FROM task_properties tp WHERE tp.task_id = t.id AND tp.kind = 'mindtape.tag' AND tp.value = ");
    reveal_strlit(")");
    assert(tag_value_sql() =~= "EXISTS (SELECT 1 FROM task_properties tp WHERE tp.task_id = t.id AND tp.kind = 'mindtape.tag' AND tp.value = "@ + seq!['?'] + ")"@);
    lemma_one_q("EXISTS (SELECT 1 FROM task_properties tp WHERE tp.task_id = t.id AND tp.kind = 'mindtape.tag' AND tp.value = "@, ")"@);
    reveal_strlit("tasks_fts MATCH ?");
    reveal_strlit("tasks_fts MATCH ");
    reveal_strlit("");
    assert("tasks_fts MATCH ?"@ =~= "tasks_fts MATCH "@ + seq!['?'] + ""@);
    lemma_one_q("tasks_fts MATCH "@, ""@);
    reveal_strlit(" = ?");
    reveal_strlit(" = ");
    assert(" = ?"@ =~= " = "@ + seq!['?'] + ""@);
    lemma_one_q(" = "@, ""@);
    reveal_strlit(" ?");
    reveal_strlit(" ");
    assert(" ?"@ =~= " "@ + seq!['?'] + ""@);
    lemma_one_q(" "@, ""@);
    reveal_strlit(" ?)");
    assert(" ?)"@ =~= " "@ + seq!['?'] + ")"@);
    lemma_one_q(" "@, ")"@);
    reveal_strlit(" LIKE '%' || ? || '%' COLLATE NOCASE");
    reveal_strlit(" LIKE '%' || ");
    reveal_strlit(" || '%' COLLATE NOCASE");
    assert(" LIKE '%' || ? || '%' COLLATE NOCASE"@ =~= " LIKE '%' || "@ + seq!['?'] + " || '%' COLLATE NOCASE"@);
    lemma_one_q(" LIKE '%' || "@, " || '%' COLLATE NOCASE"@);
    reveal_strlit("(");
    lemma_no_q("("@);
    lemma_no_q(")"@);
    lemma_no_q(" "@);
    reveal_strlit(" IS NOT NULL AND ");
    lemma_no_q(" IS NOT NULL AND "@);
    reveal_strlit("NOT (");
    lemma_no_q("NOT ("@);
    reveal_strlit("AND");
    lemma_no_q("AND"@);
    reveal_strlit("OR");
    lemma_no_q("OR"@);
    reveal_strlit("=");
    lemma_no_q("="@);
    reveal_strlit("!=");
    lemma_no_q("!="@);
    reveal_strlit("<");
    lemma_no_q("<"@);
    reveal_strlit(">");
    lemma_no_q(">"@);
    reveal_strlit("<=");
    lemma_no_q("<="@);
    reveal_strlit(">=");
    lemma_no_q(">="@);
}

proof fn lemma_q5(a: Seq<char>, b: Seq<char>, c: Seq<char>, d: Seq<char>, e: Seq<char>)
    ensures
        qcount(a + b + c + d + e) == qcount(a) + qcount(b) + qcount(c) + qcount(d) + qcount(e),
{
    lemma_qcount_concat(a, b);
    lemma_qcount_concat(a + b, c);
    lemma_qcount_concat(a + b + c, d);
    lemma_qcount_concat(a + b + c + d, e);
}

proof fn lemma_comparison_placeholders(k: OpKind, lhs: Node, rhs: Node)
    requires
        is_comparison(k),
    ensures
        comparison_spec(k, lhs, rhs) matches Ok(f) ==> placeholders(f),
{
    lemma_fixed_texts();
    if let Ok(field) = identifier_spec(lhs) {
        lemma_column_no_q(field);
        if let Some(col) = field_column(field) {
            lemma_qcount_concat(col, " = ?"@);
            lemma_qcount_concat(col + " "@, comparison_sql(k));
            lemma_qcount_concat(col, " "@);
            lemma_qcount_concat(col + " "@ + comparison_sql(k), " ?"@);
            lemma_q5("("@, col, " IS NOT NULL AND "@, col, " "@);
            lemma_qcount_concat("("@ + col + " IS NOT NULL AND "@ + col + " "@, comparison_sql(k));
            lemma_qcount_concat("("@ + col + " IS NOT NULL AND "@ + col + " "@ + comparison_sql(k), " ?)"@);
        }
    }
}

proof fn lemma_function_placeholders(name: Seq<char>, n: Node)
    ensures
        function_spec(name, n) matches Ok(f) ==> placeholders(f),
{
    lemma_fixed_texts();
    let len = n.children@.len();
    if name == "contains"@ && len == 1 {
        let u = unwrap_root_spec(n.children@[0]);
        if let Ok(f) = identifier_spec(u.children@[0]) {
            lemma_column_no_q(f);
            if let Some(col) = field_column(f) {
                lemma_qcount_concat(col, " LIKE '%' || ? || '%' COLLATE NOCASE"@);
            }
        }
    }
}

/// Every successful translation binds exactly one parameter per `?`
/// placeholder of its SQL condition.
pub proof fn law_placeholders(n: Node)
    ensures
        translate_spec(n) matches Ok(f) ==> placeholders(f),
    decreases n,
{
    lemma_fixed_texts();
    let k = op_kind(n.tag, n.text@);
    let len = n.children@.len();
    if k is Root {
        if len == 1 {
            law_placeholders(n.children@[0]);
        }
    } else if k is And || k is Or {
        if len == 2 {
            law_placeholders(n.children@[0]);
            law_placeholders(n.children@[1]);
            if let Ok(l) = translate_spec(n.children@[0]) {
                if let Ok(r) = translate_spec(n.children@[1]) {
                    let op = if k is And { "AND"@ } else { "OR"@ };
                    lemma_q5("("@, l.cond, " "@, op, " "@);
                    lemma_qcount_concat("("@ + l.cond + " "@ + op + " "@, r.cond);
                    lemma_qcount_concat("("@ + l.cond + " "@ + op + " "@ + r.cond, ")"@);
                }
            }
        }
    } else if k is Not {
        if len == 1 {
            law_placeholders(n.children@[0]);
            if let Ok(f) = translate_spec(n.children@[0]) {
                lemma_qcount_concat("NOT ("@, f.cond);
                lemma_qcount_concat("NOT ("@ + f.cond, ")"@);
            }
        }
    } else if is_comparison(k) {
        if len == 2 {
            lemma_comparison_placeholders(k, n.children@[0], n.children@[1]);
        }
    } else if k is Func {
        lemma_function_placeholders(n.text@, n);
    }
}


/// Whether a tree calls `search(..)` anywhere.
pub open spec fn has_search(n: Node) -> bool
    decreases n, n.children@.len() + 1,
{
    (op_kind(n.tag, n.text@) is Func && n.text@ == "search"@) || any_search(n, 0)
}

/// Whether a subtree of `n` from child `k` on calls `search(..)`.
pub open spec fn any_search(n: Node, k: int) -> bool
    decreases n, n.children@.len() - k,
    when 0 <= k
{
    if 0 <= k < n.children@.len() {
        has_search(n.children@[k]) || any_search(n, k + 1)
    } else {
        false
    }
}

/// Whether a tree has the parser's shape: variables and constants are
/// leaves.
pub open spec fn parser_shaped(n: Node) -> bool
    decreases n, n.children@.len() + 1,
{
    ((op_kind(n.tag, n.text@) is Var || op_kind(n.tag, n.text@) is Const) ==> n.children@.len() == 0)
        && all_shaped(n, 0)
}

/// Whether the subtrees of `n` from child `k` on have the parser's shape.
pub open spec fn all_shaped(n: Node, k: int) -> bool
    decreases n, n.children@.len() - k,
    when 0 <= k
{
    if 0 <= k < n.children@.len() {
        parser_shaped(n.children@[k]) && all_shaped(n, k + 1)
    } else {
        true
    }
}

proof fn lemma_child_facts(n: Node)
    ensures
        n.children@.len() == 1 ==> (any_search(n, 0) == has_search(n.children@[0])
            && all_shaped(n, 0) == parser_shaped(n.children@[0])),
        n.children@.len() == 2 ==> (any_search(n, 0) == (has_search(n.children@[0])
            || has_search(n.children@[1])) && all_shaped(n, 0) == (parser_shaped(n.children@[0])
            && parser_shaped(n.children@[1]))),
        n.children@.len() == 0 ==> !any_search(n, 0) && all_shaped(n, 0),
{
    if n.children@.len() == 1 {
        assert(!any_search(n, 1));
        assert(all_shaped(n, 1));
    }
    if n.children@.len() == 2 {
        assert(!any_search(n, 2));
        assert(all_shaped(n, 2));
        assert(any_search(n, 1) == has_search(n.children@[1]));
        assert(all_shaped(n, 1) == parser_shaped(n.children@[1]));
    }
}

proof fn lemma_identifier_no_search(n: Node)
    requires
        parser_shaped(n),
        identifier_spec(n) is Ok,
    ensures
        !has_search(n),
    decreases n,
{
    lemma_child_facts(n);
    let k = op_kind(n.tag, n.text@);
    if k is Root && n.children@.len() == 1 {
        lemma_identifier_no_search(n.children@[0]);
    }
}

proof fn lemma_literal_no_search(n: Node)
    requires
        parser_shaped(n),
        literal_spec(n) is Ok,
    ensures
        !has_search(n),
    decreases n,
{
    lemma_child_facts(n);
    let k = op_kind(n.tag, n.text@);
    if k is Root && n.children@.len() == 1 {
        lemma_literal_no_search(n.children@[0]);
    } else if k is Neg {
        lemma_literal_no_search(n.children@[0]);
    }
}

proof fn lemma_unwrap_shaped(n: Node)
    requires
        parser_shaped(n),
    ensures
        parser_shaped(unwrap_root_spec(n)),
        has_search(unwrap_root_spec(n)) == has_search(n),
    decreases n,
{
    lemma_child_facts(n);
    if op_kind(n.tag, n.text@) is Root && n.children@.len() == 1 {
        lemma_unwrap_shaped(n.children@[0]);
    }
}

/// A translation needs the full-text join exactly when the expression
/// calls `search(..)` somewhere, under any `!`, `&&` or `||`.
pub proof fn law_fts_join(n: Node)
    requires
        parser_shaped(n),
    ensures
        translate_spec(n) matches Ok(f) ==> (f.fts <==> has_search(n)),
    decreases n,
{
    lemma_child_facts(n);
    reveal_strlit("search");
    let k = op_kind(n.tag, n.text@);
    let len = n.children@.len();
    if k is Root {
        if len == 1 {
            law_fts_join(n.children@[0]);
        }
    } else if k is And || k is Or {
        if len == 2 {
            law_fts_join(n.children@[0]);
            law_fts_join(n.children@[1]);
        }
    } else if k is Not {
        if len == 1 {
            law_fts_join(n.children@[0]);
        }
    } else if is_comparison(k) {
        if len == 2 && translate_spec(n) is Ok {
            lemma_identifier_no_search(n.children@[0]);
            lemma_literal_no_search(n.children@[1]);
        }
    } else if k is Func {
        let name = n.text@;
        if translate_spec(n) is Ok {
            assert(translate_spec(n) == function_spec(name, n));
            if name == "contains"@ {
                reveal_strlit("contains");
                reveal_strlit("has");
                reveal_strlit("miss");
                reveal_strlit("has_tag");
                assert(name != "has"@ && name != "miss"@ && name != "has_tag"@ && name != "search"@) by {
                    assert(name[0] == 'c');
                }
                let u = unwrap_root_spec(n.children@[0]);
                assert(len == 1 && op_kind(u.tag, u.text@) is Tuple && u.children@.len() == 2);
                lemma_unwrap_shaped(n.children@[0]);
                lemma_child_facts(u);
                lemma_identifier_no_search(u.children@[0]);
                lemma_literal_no_search(u.children@[1]);
                assert(name != "search"@);
            } else if name == "has"@ || name == "miss"@ {
                reveal_strlit("has");
                reveal_strlit("miss");
                assert(name != "search"@) by {
                    assert(name[0] == 'h' || name[0] == 'm');
                }
                lemma_identifier_no_search(n.children@[0]);
            } else if name == "has_tag"@ {
                reveal_strlit("has_tag");
                assert(name != "search"@) by {
                    assert(name[0] == 'h');
                }
                lemma_literal_no_search(n.children@[0]);
            } else {
                lemma_literal_no_search(n.children@[0]);
            }
        }
    }
}


/// Whether two trees differ at most in the text of their constants: same
/// operators, variables, functions and shape.
pub open spec fn same_but_constants(a: Node, b: Node) -> bool
    decreases a, a.children@.len() + 1,
{
    &&& a.tag == b.tag
    &&& (TAG_STR <= a.tag <= TAG_VALUE || (a.text@ == b.text@ && a.debug@ == b.debug@))
    &&& a.children@.len() == b.children@.len()
    &&& same_children(a, b, 0)
}

/// Whether the subtrees of `a` and `b` from child `k` on differ at most in
/// the text of their constants.
pub open spec fn same_children(a: Node, b: Node, k: int) -> bool
    decreases a, a.children@.len() - k,
    when 0 <= k
{
    if 0 <= k < a.children@.len() {
        k < b.children@.len() && same_but_constants(a.children@[k], b.children@[k])
            && same_children(a, b, k + 1)
    } else {
        true
    }
}

proof fn lemma_same_children(a: Node, b: Node)
    requires
        same_but_constants(a, b),
    ensures
        op_kind(a.tag, a.text@) == op_kind(b.tag, b.text@),
        forall|j: int| 0 <= j < a.children@.len() ==> same_but_constants(#[trigger] a.children@[j], b.children@[j]),
{
    assert forall|j: int| 0 <= j < a.children@.len() implies same_but_constants(#[trigger] a.children@[j], b.children@[j]) by {
        lemma_same_children_from(a, b, 0, j);
    }
}

proof fn lemma_same_children_from(a: Node, b: Node, k: int, j: int)
    requires
        0 <= k <= j < a.children@.len(),
        same_children(a, b, k),
    ensures
        same_but_constants(a.children@[j], b.children@[j]),
    decreases j - k,
{
    if k < j {
        lemma_same_children_from(a, b, k + 1, j);
    }
}

proof fn lemma_identifier_same_shape(a: Node, b: Node)
    requires
        same_but_constants(a, b),
    ensures
        identifier_spec(a) is Ok <==> identifier_spec(b) is Ok,
        identifier_spec(a) is Ok ==> identifier_spec(a) == identifier_spec(b),
    decreases a,
{
    lemma_same_children(a, b);
    if op_kind(a.tag, a.text@) is Root && a.children@.len() == 1 {
        lemma_identifier_same_shape(a.children@[0], b.children@[0]);
    }
}

proof fn lemma_unwrap_same_shape(a: Node, b: Node)
    requires
        same_but_constants(a, b),
    ensures
        same_but_constants(unwrap_root_spec(a), unwrap_root_spec(b)),
    decreases a,
{
    lemma_same_children(a, b);
    if op_kind(a.tag, a.text@) is Root && a.children@.len() == 1 {
        lemma_unwrap_same_shape(a.children@[0], b.children@[0]);
    }
}

/// What a translation fixes independently of literal values: the SQL
/// condition, the number of parameters, and whether full-text search is
/// joined.
pub open spec fn same_sql(x: TrV, y: TrV) -> bool {
    match (x, y) {
        (Ok(f), Ok(g)) => f.cond == g.cond && f.params.len() == g.params.len() && f.fts == g.fts,
        _ => true,
    }
}

proof fn lemma_comparison_same_shape(k: OpKind, a0: Node, a1: Node, b0: Node, b1: Node)
    requires
        same_but_constants(a0, b0),
    ensures
        same_sql(comparison_spec(k, a0, a1), comparison_spec(k, b0, b1)),
{
    lemma_identifier_same_shape(a0, b0);
}

proof fn lemma_function_same_shape(name: Seq<char>, a: Node, b: Node)
    requires
        same_but_constants(a, b),
    ensures
        same_sql(function_spec(name, a), function_spec(name, b)),
{
    lemma_same_children(a, b);
    if a.children@.len() >= 1 {
        lemma_identifier_same_shape(a.children@[0], b.children@[0]);
        lemma_unwrap_same_shape(a.children@[0], b.children@[0]);
        let ua = unwrap_root_spec(a.children@[0]);
        let ub = unwrap_root_spec(b.children@[0]);
        lemma_same_children(ua, ub);
        if ua.children@.len() == 2 {
            lemma_identifier_same_shape(ua.children@[0], ub.children@[0]);
        }
    }
}

/// Literal values never reach the SQL text: two expressions that differ
/// only in their constants translate, where both succeed, to the same
/// condition with as many parameters and the same full-text join.
pub proof fn law_literals_not_spliced(a: Node, b: Node)
    requires
        same_but_constants(a, b),
    ensures
        same_sql(translate_spec(a), translate_spec(b)),
    decreases a,
{
    lemma_same_children(a, b);
    let k = op_kind(a.tag, a.text@);
    let len = a.children@.len();
    if k is Root || k is Not {
        if len == 1 {
            law_literals_not_spliced(a.children@[0], b.children@[0]);
        }
    } else if k is And || k is Or {
        if len == 2 {
            law_literals_not_spliced(a.children@[0], b.children@[0]);
            law_literals_not_spliced(a.children@[1], b.children@[1]);
        }
    } else if is_comparison(k) {
        if len == 2 {
            lemma_comparison_same_shape(k, a.children@[0], a.children@[1], b.children@[0], b.children@[1]);
        }
    } else if k is Func {
        lemma_function_same_shape(a.text@, a, b);
    }
}


// ---------------------------------------------------------------------------
// Parsed trees: shape, `search(..)` and literals
// ---------------------------------------------------------------------------

proof fn lemma_preorder_split(n: Node)
    ensures
        preorder(n).len() == 1 + preorder_children(n, 0).len(),
        preorder(n)[0] == (FlatV { tag: n.tag, text: n.text@, arity: n.children@.len(), debug: n.debug@ }),
        forall|i: int| 0 <= i < preorder_children(n, 0).len() ==> #[trigger] preorder_children(n, 0)[i] == preorder(n)[i + 1],
{
}

proof fn lemma_children_split(n: Node, k: int)
    requires
        0 <= k < n.children@.len(),
    ensures
        preorder_children(n, k).len() == preorder(n.children@[k]).len() + preorder_children(n, k + 1).len(),
        forall|i: int| 0 <= i < preorder(n.children@[k]).len() ==> #[trigger] preorder(n.children@[k])[i]
            == preorder_children(n, k)[i],
        forall|i: int| 0 <= i < preorder_children(n, k + 1).len() ==> #[trigger] preorder_children(n, k + 1)[i]
            == preorder_children(n, k)[i + preorder(n.children@[k]).len()],
{
}

proof fn lemma_shaped_from_flat(n: Node)
    requires
        leaves_bare(preorder(n)),
    ensures
        parser_shaped(n),
    decreases n, n.children@.len() + 1,
{
    lemma_preorder_split(n);
    let p = preorder(n);
    assert(is_leaf_tag(p[0].tag) ==> p[0].arity == 0);
    let c = preorder_children(n, 0);
    assert forall|i: int| 0 <= i < c.len() && is_leaf_tag((#[trigger] c[i]).tag) implies c[i].arity == 0 by {
        assert(c[i] == p[i + 1]);
    }
    lemma_all_shaped_from_flat(n, 0);
}

proof fn lemma_all_shaped_from_flat(n: Node, k: int)
    requires
        0 <= k,
        leaves_bare(preorder_children(n, k)),
    ensures
        all_shaped(n, k),
    decreases n, n.children@.len() - k,
{
    if k < n.children@.len() {
        lemma_children_split(n, k);
        let c = n.children@[k];
        let whole = preorder_children(n, k);
        let a = preorder(c);
        let b = preorder_children(n, k + 1);
        assert forall|i: int| 0 <= i < a.len() && is_leaf_tag((#[trigger] a[i]).tag) implies a[i].arity == 0 by {
            assert(a[i] == whole[i]);
        }
        assert forall|i: int| 0 <= i < b.len() && is_leaf_tag((#[trigger] b[i]).tag) implies b[i].arity == 0 by {
            assert(b[i] == whole[i + a.len()]);
        }
        lemma_shaped_from_flat(c);
        lemma_all_shaped_from_flat(n, k + 1);
    }
}

/// A node of a pre-order form that calls `search(..)`.
pub open spec fn is_search_node(x: FlatV) -> bool {
    op_kind(x.tag, x.text) is Func && x.text == "search"@
}

/// Whether a pre-order form calls `search(..)` anywhere.
pub open spec fn calls_search(f: Seq<FlatV>) -> bool {
    exists|i: int| 0 <= i < f.len() && is_search_node(#[trigger] f[i])
}

proof fn lemma_search_from_flat(n: Node)
    ensures
        has_search(n) == calls_search(preorder(n)),
    decreases n, n.children@.len() + 1,
{
    lemma_preorder_split(n);
    lemma_any_search_from_flat(n, 0);
    let p = preorder(n);
    let c = preorder_children(n, 0);
    if calls_search(p) {
        let i = choose|i: int| 0 <= i < p.len() && is_search_node(#[trigger] p[i]);
        if i > 0 {
            assert(c[i - 1] == p[i]);
        }
    }
    if calls_search(c) {
        let i = choose|i: int| 0 <= i < c.len() && is_search_node(#[trigger] c[i]);
        assert(c[i] == p[i + 1]);
    }
    if op_kind(n.tag, n.text@) is Func && n.text@ == "search"@ {
        assert(is_search_node(p[0]));
    }
}

proof fn lemma_any_search_from_flat(n: Node, k: int)
    requires
        0 <= k,
    ensures
        any_search(n, k) == calls_search(preorder_children(n, k)),
    decreases n, n.children@.len() - k,
{
    if k < n.children@.len() {
        lemma_children_split(n, k);
        let c = n.children@[k];
        let whole = preorder_children(n, k);
        let a = preorder(c);
        let b = preorder_children(n, k + 1);
        lemma_search_from_flat(c);
        lemma_any_search_from_flat(n, k + 1);
        if calls_search(whole) {
            let i = choose|i: int| 0 <= i < whole.len() && is_search_node(#[trigger] whole[i]);
            if i < a.len() {
                assert(a[i] == whole[i]);
            } else {
                assert(b[i - a.len()] == whole[i]);
            }
        }
        if calls_search(a) {
            let i = choose|i: int| 0 <= i < a.len() && is_search_node(#[trigger] a[i]);
            assert(a[i] == whole[i]);
        }
        if calls_search(b) {
            let i = choose|i: int| 0 <= i < b.len() && is_search_node(#[trigger] b[i]);
            assert(b[i] == whole[i + a.len()]);
        }
    } else {
        assert(preorder_children(n, k) =~= Seq::<FlatV>::empty());
    }
}

/// The values of the literals of a tree, left to right: a subtree that
/// denotes a literal gives its value, any other node those of its children
/// in order.
pub open spec fn literal_values(n: Node) -> Seq<Seq<char>>
    decreases n, n.children@.len() + 1,
{
    match literal_spec(n) {
        Ok(v) => seq![v],
        Err(_) => child_literals(n, 0),
    }
}

/// The literal values of the children of `n` from child `k` on.
pub open spec fn child_literals(n: Node, k: int) -> Seq<Seq<char>>
    decreases n, n.children@.len() - k,
    when 0 <= k
{
    if 0 <= k < n.children@.len() {
        literal_values(n.children@[k]) + child_literals(n, k + 1)
    } else {
        Seq::empty()
    }
}

/// The parameters follow the literals one for one and in order: each is
/// the literal's value, or (where compared with `done`) its `1`/`0` form.
pub open spec fn params_in_order(params: Seq<Seq<char>>, lits: Seq<Seq<char>>) -> bool {
    params.len() == lits.len() && forall|i: int|
        0 <= i < params.len() ==> (#[trigger] params[i] == lits[i] || bool_literal_spec(lits[i]) == Ok::<
            Seq<char>,
            FilterErrV,
        >(params[i]))
}

proof fn lemma_child_literals(n: Node)
    ensures
        n.children@.len() == 0 ==> child_literals(n, 0) == Seq::<Seq<char>>::empty(),
        n.children@.len() == 1 ==> child_literals(n, 0) == literal_values(n.children@[0]),
        n.children@.len() == 2 ==> child_literals(n, 0) == literal_values(n.children@[0]) + literal_values(
            n.children@[1],
        ),
{
    if n.children@.len() == 1 {
        assert(child_literals(n, 1) == Seq::<Seq<char>>::empty());
        assert(child_literals(n, 0) == literal_values(n.children@[0]) + child_literals(n, 1));
        assert(child_literals(n, 0) =~= literal_values(n.children@[0]));
    }
    if n.children@.len() == 2 {
        assert(child_literals(n, 2) == Seq::<Seq<char>>::empty());
        assert(child_literals(n, 1) == literal_values(n.children@[1]) + child_literals(n, 2));
        assert(child_literals(n, 1) =~= literal_values(n.children@[1]));
    }
}

proof fn lemma_translate_not_literal(n: Node)
    ensures
        translate_spec(n) is Ok ==> literal_spec(n) is Err,
    decreases n,
{
    let k = op_kind(n.tag, n.text@);
    if k is Root && n.children@.len() == 1 {
        lemma_translate_not_literal(n.children@[0]);
    }
}

proof fn lemma_identifier_no_literals(n: Node)
    requires
        parser_shaped(n),
        identifier_spec(n) is Ok,
    ensures
        literal_spec(n) is Err,
        literal_values(n) == Seq::<Seq<char>>::empty(),
    decreases n,
{
    lemma_child_facts(n);
    lemma_child_literals(n);
    if op_kind(n.tag, n.text@) is Root && n.children@.len() == 1 {
        lemma_identifier_no_literals(n.children@[0]);
    }
}

proof fn lemma_unwrap_literals(n: Node)
    requires
        parser_shaped(n),
    ensures
        literal_spec(n) == literal_spec(unwrap_root_spec(n)),
        literal_spec(n) is Err ==> literal_values(n) == literal_values(unwrap_root_spec(n)),
    decreases n,
{
    lemma_child_facts(n);
    lemma_child_literals(n);
    if op_kind(n.tag, n.text@) is Root && n.children@.len() == 1 {
        lemma_unwrap_literals(n.children@[0]);
    }
}

proof fn lemma_params_concat(p: Seq<Seq<char>>, l: Seq<Seq<char>>, q: Seq<Seq<char>>, m: Seq<Seq<char>>)
    requires
        params_in_order(p, l),
        params_in_order(q, m),
    ensures
        params_in_order(p + q, l + m),
{
    assert forall|i: int| 0 <= i < (p + q).len() implies (#[trigger] (p + q)[i] == (l + m)[i]
        || bool_literal_spec((l + m)[i]) == Ok::<Seq<char>, FilterErrV>((p + q)[i])) by {
        if i < p.len() {
            assert((p + q)[i] == p[i] && (l + m)[i] == l[i]);
        } else {
            assert((p + q)[i] == q[i - p.len()] && (l + m)[i] == m[i - l.len()]);
        }
    }
}

/// A translation binds the literals of the expression, left to right, as
/// its parameters: the `i`-th parameter is the `i`-th literal's value (its
/// `1`/`0` form where it is compared with `done`).
pub proof fn law_params_in_source_order(n: Node)
    requires
        parser_shaped(n),
    ensures
        translate_spec(n) matches Ok(f) ==> params_in_order(f.params, literal_values(n)),
    decreases n,
{
    lemma_child_facts(n);
    lemma_child_literals(n);
    lemma_translate_not_literal(n);
    let k = op_kind(n.tag, n.text@);
    let len = n.children@.len();
    if translate_spec(n) is Ok {
        if k is Root {
            law_params_in_source_order(n.children@[0]);
        } else if k is And || k is Or {
            law_params_in_source_order(n.children@[0]);
            law_params_in_source_order(n.children@[1]);
            let l = translate_spec(n.children@[0])->Ok_0;
            let r = translate_spec(n.children@[1])->Ok_0;
            lemma_params_concat(l.params, literal_values(n.children@[0]), r.params, literal_values(n.children@[1]));
        } else if k is Not {
            law_params_in_source_order(n.children@[0]);
        } else if is_comparison(k) {
            lemma_identifier_no_literals(n.children@[0]);
            let f = translate_spec(n)->Ok_0;
            let lit = literal_spec(n.children@[1])->Ok_0;
            assert(literal_values(n.children@[1]) == seq![lit]);
            assert(literal_values(n) =~= seq![lit]);
            assert(f.params.len() == 1);
        } else if k is Var {
        } else if k is Func {
            let name = n.text@;
            assert(translate_spec(n) == function_spec(name, n));
            reveal_strlit("contains");
            reveal_strlit("has");
            reveal_strlit("miss");
            reveal_strlit("has_tag");
            reveal_strlit("search");
            if name == "contains"@ {
                assert(name != "has"@ && name != "miss"@ && name != "has_tag"@ && name != "search"@) by {
                    assert(name[0] == 'c');
                }
                let u = unwrap_root_spec(n.children@[0]);
                assert(len == 1 && op_kind(u.tag, u.text@) is Tuple && u.children@.len() == 2);
                lemma_unwrap_shaped(n.children@[0]);
                lemma_unwrap_literals(n.children@[0]);
                lemma_child_facts(u);
                lemma_child_literals(u);
                lemma_identifier_no_literals(u.children@[0]);
                let lit = literal_spec(u.children@[1])->Ok_0;
                assert(literal_values(u.children@[1]) == seq![lit]);
                assert(literal_values(u) =~= seq![lit]);
                assert(literal_values(n) =~= seq![lit]);
            } else if name == "has"@ || name == "miss"@ {
                lemma_identifier_no_literals(n.children@[0]);
            } else {
                let lit = literal_spec(n.children@[0])->Ok_0;
                assert(literal_values(n.children@[0]) == seq![lit]);
                assert(literal_values(n) =~= seq![lit]);
            }
        }
    }
}


/// Whether `s` ends with `suffix`.
pub open spec fn ends_with(s: Seq<char>, suffix: Seq<char>) -> bool {
    s.len() >= suffix.len() && s.skip(s.len() - suffix.len()) == suffix
}

/// A comparison of a field other than `done` with a literal keeps its
/// operator: the SQL condition applies the same operator (`==` written
/// `=`) right before the one placeholder, and the literal is the one
/// parameter bound to it.
pub proof fn law_comparison_keeps_operator(n: Node)
    requires
        n.tag == TAG_OPERATOR,
        n.children@.len() == 2,
        n.text@ == "=="@ || n.text@ == "!="@ || n.text@ == "<"@ || n.text@ == ">"@ || n.text@ == "<="@
            || n.text@ == ">="@,
    ensures
        translate_spec(n) matches Ok(f) ==> (identifier_spec(n.children@[0]) != Ok::<Seq<char>, FilterErrV>(
            "done"@,
        ) ==> (f.params == seq![literal_spec(n.children@[1])->Ok_0] && (ends_with(
            f.cond,
            " "@ + (if n.text@ == "=="@ { "="@ } else { n.text@ }) + " ?"@,
        ) || ends_with(f.cond, " "@ + (if n.text@ == "=="@ { "="@ } else { n.text@ }) + " ?)"@)))),
{
    reveal_strlit("");
    reveal_strlit("&&");
    reveal_strlit("||");
    reveal_strlit("!");
    reveal_strlit("==");
    reveal_strlit("!=");
    reveal_strlit("<");
    reveal_strlit(">");
    reveal_strlit("<=");
    reveal_strlit(">=");
    reveal_strlit(", ");
    let k = op_kind(n.tag, n.text@);
    let t = n.text@;
    if t == "=="@ {
        assert(t.len() == "=="@.len() && t[0] == "=="@[0] && t[t.len() - 1] == "=="@[t.len() - 1]);
        assert(t != ""@ && t != "&&"@ && t != "||"@ && t != "!"@);
        assert(k == OpKind::Eq);
    }
    if t == "!="@ {
        assert(t.len() == "!="@.len() && t[0] == "!="@[0] && t[t.len() - 1] == "!="@[t.len() - 1]);
        assert(t != ""@ && t != "&&"@ && t != "||"@ && t != "!"@ && t != "=="@);
        assert(k == OpKind::Neq);
    }
    if t == "<"@ {
        assert(t.len() == "<"@.len() && t[0] == "<"@[0] && t[t.len() - 1] == "<"@[t.len() - 1]);
        assert(t != ""@ && t != "&&"@ && t != "||"@ && t != "!"@ && t != "=="@ && t != "!="@);
        assert(k == OpKind::Lt);
    }
    if t == ">"@ {
        assert(t.len() == ">"@.len() && t[0] == ">"@[0] && t[t.len() - 1] == ">"@[t.len() - 1]);
        assert(t != ""@ && t != "&&"@ && t != "||"@ && t != "!"@ && t != "=="@ && t != "!="@ && t != "<"@);
        assert(k == OpKind::Gt);
    }
    if t == "<="@ {
        assert(t.len() == "<="@.len() && t[0] == "<="@[0] && t[t.len() - 1] == "<="@[t.len() - 1]);
        assert(t != ""@ && t != "&&"@ && t != "||"@ && t != "!"@ && t != "=="@ && t != "!="@ && t != "<"@ && t != ">"@);
        assert(k == OpKind::Leq);
    }
    if t == ">="@ {
        assert(t.len() == ">="@.len() && t[0] == ">="@[0] && t[t.len() - 1] == ">="@[t.len() - 1]);
        assert(t != ""@ && t != "&&"@ && t != "||"@ && t != "!"@ && t != "=="@ && t != "!="@ && t != "<"@ && t != ">"@ && t != "<="@);
        assert(k == OpKind::Geq);
    }
    assert(is_comparison(k));
    assert(translate_spec(n) == comparison_spec(k, n.children@[0], n.children@[1]));
    let op = if t == "=="@ { "="@ } else { t };
    assert(comparison_sql(k) == op);
    if let Ok(f) = translate_spec(n) {
        if identifier_spec(n.children@[0]) != Ok::<Seq<char>, FilterErrV>("done"@) {
            let field = identifier_spec(n.children@[0])->Ok_0;
            let col = field_column(field)->Some_0;
            if nullable_field(field) && is_inequality(k) {
                let pre = "("@ + col + " IS NOT NULL AND "@ + col;
                let suf = " "@ + op + " ?)"@;
                assert(f.cond =~= pre + suf);
                assert(f.cond.skip(f.cond.len() - suf.len()) =~= suf);
            } else {
                let suf = " "@ + op + " ?"@;
                assert(f.cond =~= col + suf);
                assert(f.cond.skip(f.cond.len() - suf.len()) =~= suf);
            }
        }
    }
}

}
