//! `set`: applying the requested property changes to a task's file text.

use vstd::prelude::*;
use crate::text::{copy_string, dec_int, join, join_strings, push_i64, push_str, strs};
use crate::write::{
    add_task_tag, date_args_spec, remove_task_due, remove_task_rank, remove_task_start,
    remove_task_tag, set_task_due, set_task_rank, set_task_start, task_edit_spec, wres, ItemEditV,
    Source, WriteErrV, WriteError,
};

verus! {

broadcast use vstd::string::group_string_axioms;

/// Arguments of `set`.
#[derive(Debug, Clone, PartialEq)]
pub struct SetArgs {
    /// Task ID (or masked pattern).
    pub task_id: String,
    /// Set due date (YYYY-MM-DD).
    pub due: Option<String>,
    /// Remove due date.
    pub no_due: bool,
    /// Set start date (YYYY-MM-DD).
    pub start: Option<String>,
    /// Remove start date.
    pub no_start: bool,
    /// Set rank.
    pub rank: Option<i64>,
    /// Remove rank.
    pub no_rank: bool,
    /// Tags to add.
    pub add_tag: Vec<String>,
    /// Tags to remove.
    pub remove_tag: Vec<String>,
    /// Path to the database.
    pub db: Option<String>,
}

/// One requested change.
pub enum SetOp {
    Due(Seq<char>),
    NoDue,
    Start(Seq<char>),
    NoStart,
    Rank(i64),
    NoRank,
    AddTag(Seq<char>),
    RemoveTag(Seq<char>),
}

/// The requested changes, in the order they are applied: due date, its
/// removal, start date, its removal, rank, its removal, added tags,
/// removed tags.
pub open spec fn set_ops(a: &SetArgs) -> Seq<SetOp> {
    (match &a.due {
        Some(d) => seq![SetOp::Due(d@)],
        None => Seq::empty(),
    }) + (if a.no_due { seq![SetOp::NoDue] } else { Seq::empty() }) + (match &a.start {
        Some(d) => seq![SetOp::Start(d@)],
        None => Seq::empty(),
    }) + (if a.no_start { seq![SetOp::NoStart] } else { Seq::empty() }) + (match a.rank {
        Some(r) => seq![SetOp::Rank(r)],
        None => Seq::empty(),
    }) + (if a.no_rank { seq![SetOp::NoRank] } else { Seq::empty() }) + strs(a.add_tag@).map_values(
        |t: Seq<char>| SetOp::AddTag(t),
    ) + strs(a.remove_tag@).map_values(|t: Seq<char>| SetOp::RemoveTag(t))
}

/// The text after one change, or its error.
#[verifier::opaque]
pub open spec fn apply_op(text: Seq<char>, id: Seq<char>, op: SetOp) -> Result<Seq<char>, WriteErrV> {
    match op {
        SetOp::Due(d) => match date_args_spec(d) {
            Err(e) => Err(e),
            Ok(a) => task_edit_spec(text, id, ItemEditV::SetDue(a)),
        },
        SetOp::NoDue => task_edit_spec(text, id, ItemEditV::RemoveDue),
        SetOp::Start(d) => match date_args_spec(d) {
            Err(e) => Err(e),
            Ok(a) => task_edit_spec(text, id, ItemEditV::SetStart(a)),
        },
        SetOp::NoStart => task_edit_spec(text, id, ItemEditV::RemoveStart),
        SetOp::Rank(r) => task_edit_spec(text, id, ItemEditV::SetRank(r as int)),
        SetOp::NoRank => task_edit_spec(text, id, ItemEditV::RemoveRank),
        SetOp::AddTag(t) => task_edit_spec(text, id, ItemEditV::AddTag(t)),
        SetOp::RemoveTag(t) => task_edit_spec(text, id, ItemEditV::RemoveTag(t)),
    }
}

/// The description of a change.
pub open spec fn op_change(op: SetOp) -> Seq<char> {
    match op {
        SetOp::Due(d) => "due="@ + d,
        SetOp::NoDue => "due removed"@,
        SetOp::Start(d) => "start="@ + d,
        SetOp::NoStart => "start removed"@,
        SetOp::Rank(r) => "rank="@ + dec_int(r as int),
        SetOp::NoRank => "rank removed"@,
        SetOp::AddTag(t) => "+tag:"@ + t,
        SetOp::RemoveTag(t) => "-tag:"@ + t,
    }
}

/// What a failed change reports.
pub open spec fn op_context(op: SetOp) -> Seq<char> {
    match op {
        SetOp::Due(_) => "failed to set due date"@,
        SetOp::NoDue => "failed to remove due date"@,
        SetOp::Start(_) => "failed to set start date"@,
        SetOp::NoStart => "failed to remove start date"@,
        SetOp::Rank(_) => "failed to set rank"@,
        SetOp::NoRank => "failed to remove rank"@,
        SetOp::AddTag(_) => "failed to add tag"@,
        SetOp::RemoveTag(_) => "failed to remove tag"@,
    }
}

/// The text and change descriptions after applying `ops` in order to
/// `text`; the first failure stops with its context and error.
pub open spec fn apply_ops(text: Seq<char>, id: Seq<char>, ops: Seq<SetOp>) -> Result<
    (Seq<char>, Seq<Seq<char>>),
    (Seq<char>, WriteErrV),
>
    decreases ops.len(),
{
    if ops.len() == 0 {
        Ok((text, Seq::empty()))
    } else {
        match apply_ops(text, id, ops.drop_last()) {
            Err(e) => Err(e),
            Ok((t, cs)) => match apply_op(t, id, ops.last()) {
                Err(e) => Err((op_context(ops.last()), e)),
                Ok(t2) => Ok((t2, cs.push(op_change(ops.last())))),
            },
        }
    }
}

proof fn lemma_apply_ops_err(text: Seq<char>, id: Seq<char>, ops: Seq<SetOp>, k: int)
    requires
        0 <= k <= ops.len(),
        apply_ops(text, id, ops.take(k)) is Err,
    ensures
        apply_ops(text, id, ops) == apply_ops(text, id, ops.take(k)),
    decreases ops.len(),
{
    if k == ops.len() {
        assert(ops.take(k) =~= ops);
    } else {
        assert(ops.drop_last().take(k) =~= ops.take(k));
        lemma_apply_ops_err(text, id, ops.drop_last(), k);
    }
}

/// A failed change: what was being done, and why it failed.
#[derive(Debug, Clone, PartialEq)]
pub struct MutationError {
    pub context: String,
    pub error: WriteError,
}

fn apply_one(content: &String, task_id: &str, op: &ExecOp) -> (r: Result<String, WriteError>)
    ensures
        wres(&r) == apply_op(content@, task_id@, op.view_op()),
{
    reveal(apply_op);
    let src = Source::detached(content.as_str());
    match op {
        ExecOp::Due(d) => set_task_due(&src, task_id, d.as_str()),
        ExecOp::NoDue => remove_task_due(&src, task_id),
        ExecOp::Start(d) => set_task_start(&src, task_id, d.as_str()),
        ExecOp::NoStart => remove_task_start(&src, task_id),
        ExecOp::Rank(r) => set_task_rank(&src, task_id, *r),
        ExecOp::NoRank => remove_task_rank(&src, task_id),
        ExecOp::AddTag(t) => add_task_tag(&src, task_id, t.as_str()),
        ExecOp::RemoveTag(t) => remove_task_tag(&src, task_id, t.as_str()),
    }
}

/// A requested change, as the command holds it.
enum ExecOp {
    Due(String),
    NoDue,
    Start(String),
    NoStart,
    Rank(i64),
    NoRank,
    AddTag(String),
    RemoveTag(String),
}

impl ExecOp {
    spec fn view_op(&self) -> SetOp {
        match self {
            ExecOp::Due(d) => SetOp::Due(d@),
            ExecOp::NoDue => SetOp::NoDue,
            ExecOp::Start(d) => SetOp::Start(d@),
            ExecOp::NoStart => SetOp::NoStart,
            ExecOp::Rank(r) => SetOp::Rank(*r),
            ExecOp::NoRank => SetOp::NoRank,
            ExecOp::AddTag(t) => SetOp::AddTag(t@),
            ExecOp::RemoveTag(t) => SetOp::RemoveTag(t@),
        }
    }

    fn change(&self) -> (r: String)
        ensures
            r@ == op_change(self.view_op()),
    {
        let mut r = String::new();
        match self {
            ExecOp::Due(d) => {
                push_str(&mut r, "due=");
                push_str(&mut r, d.as_str());
            },
            ExecOp::NoDue => push_str(&mut r, "due removed"),
            ExecOp::Start(d) => {
                push_str(&mut r, "start=");
                push_str(&mut r, d.as_str());
            },
            ExecOp::NoStart => push_str(&mut r, "start removed"),
            ExecOp::Rank(x) => {
                push_str(&mut r, "rank=");
                push_i64(&mut r, *x);
            },
            ExecOp::NoRank => push_str(&mut r, "rank removed"),
            ExecOp::AddTag(t) => {
                push_str(&mut r, "+tag:");
                push_str(&mut r, t.as_str());
            },
            ExecOp::RemoveTag(t) => {
                push_str(&mut r, "-tag:");
                push_str(&mut r, t.as_str());
            },
        }
        r
    }

    fn context(&self) -> (r: String)
        ensures
            r@ == op_context(self.view_op()),
    {
        match self {
            ExecOp::Due(_) => "failed to set due date".to_string(),
            ExecOp::NoDue => "failed to remove due date".to_string(),
            ExecOp::Start(_) => "failed to set start date".to_string(),
            ExecOp::NoStart => "failed to remove start date".to_string(),
            ExecOp::Rank(_) => "failed to set rank".to_string(),
            ExecOp::NoRank => "failed to remove rank".to_string(),
            ExecOp::AddTag(_) => "failed to add tag".to_string(),
            ExecOp::RemoveTag(_) => "failed to remove tag".to_string(),
        }
    }
}

spec fn ops_view(v: Seq<ExecOp>) -> Seq<SetOp> {
    v.map_values(|o: ExecOp| o.view_op())
}

proof fn lemma_ops_view_push(v: Seq<ExecOp>, o: ExecOp)
    ensures
        ops_view(v.push(o)) == ops_view(v).push(o.view_op()),
{
    assert(ops_view(v.push(o)) =~= ops_view(v).push(o.view_op()));
}

fn push_op(ops: &mut Vec<ExecOp>, o: ExecOp)
    ensures
        ops_view(final(ops)@) == ops_view(old(ops)@).push(o.view_op()),
{
    let ghost before = ops@;
    ops.push(o);
    proof {
        lemma_ops_view_push(before, o);
    }
}

/// The tag changes of `tags`: additions or removals.
spec fn tag_ops(tags: Seq<Seq<char>>, add: bool) -> Seq<SetOp> {
    if add {
        tags.map_values(|t: Seq<char>| SetOp::AddTag(t))
    } else {
        tags.map_values(|t: Seq<char>| SetOp::RemoveTag(t))
    }
}

fn push_tag_ops(ops: &mut Vec<ExecOp>, tags: &Vec<String>, add: bool)
    ensures
        ops_view(final(ops)@) == ops_view(old(ops)@) + tag_ops(strs(tags@), add),
{
    let ghost head = ops_view(ops@);
    let mut i: usize = 0;
    while i < tags.len()
        invariant
            i <= tags.len(),
            ops_view(ops@) == head + tag_ops(strs(tags@).take(i as int), add),
        decreases tags.len() - i,
    {
        let t = copy_string(&tags[i]);
        let o = if add {
            ExecOp::AddTag(t)
        } else {
            ExecOp::RemoveTag(t)
        };
        push_op(ops, o);
        proof {
            assert(strs(tags@)[i as int] == tags@[i as int]@);
            assert(strs(tags@).take(i + 1) =~= strs(tags@).take(i as int).push(tags@[i as int]@));
            assert(tag_ops(strs(tags@).take(i + 1), add) =~= tag_ops(strs(tags@).take(i as int), add).push(
                o.view_op(),
            ));
            assert(ops_view(ops@) =~= head + tag_ops(strs(tags@).take(i + 1), add));
        }
        i = i + 1;
    }
    assert(strs(tags@).take(tags.len() as int) =~= strs(tags@));
}

impl SetArgs {
    fn ops(&self) -> (r: Vec<ExecOp>)
        ensures
            ops_view(r@) == set_ops(self),
    {
        let mut ops: Vec<ExecOp> = Vec::new();
        if let Some(d) = &self.due {
            push_op(&mut ops, ExecOp::Due(copy_string(d)));
        }
        if self.no_due {
            push_op(&mut ops, ExecOp::NoDue);
        }
        if let Some(d) = &self.start {
            push_op(&mut ops, ExecOp::Start(copy_string(d)));
        }
        if self.no_start {
            push_op(&mut ops, ExecOp::NoStart);
        }
        if let Some(x) = self.rank {
            push_op(&mut ops, ExecOp::Rank(x));
        }
        if self.no_rank {
            push_op(&mut ops, ExecOp::NoRank);
        }
        let ghost head = ops_view(ops@);
        assert(head =~= (match &self.due {
            Some(d) => seq![SetOp::Due(d@)],
            None => Seq::<SetOp>::empty(),
        }) + (if self.no_due { seq![SetOp::NoDue] } else { Seq::<SetOp>::empty() }) + (match &self.start {
            Some(d) => seq![SetOp::Start(d@)],
            None => Seq::<SetOp>::empty(),
        }) + (if self.no_start { seq![SetOp::NoStart] } else { Seq::<SetOp>::empty() }) + (match self.rank {
            Some(r) => seq![SetOp::Rank(r)],
            None => Seq::<SetOp>::empty(),
        }) + (if self.no_rank { seq![SetOp::NoRank] } else { Seq::<SetOp>::empty() }));
        push_tag_ops(&mut ops, &self.add_tag, true);
        push_tag_ops(&mut ops, &self.remove_tag, false);
        assert(ops_view(ops@) =~= set_ops(self));
        ops
    }

    /// Applies all requested changes, in order, to the file text: the new
    /// text and a description of each change; the first failure stops
    /// with what was being done and why it failed.
    pub fn apply_mutations(&self, source_text: &str, task_id: &str) -> (r: Result<
        (String, Vec<String>),
        MutationError,
    >)
        ensures
            match r {
                Ok((t, cs)) => apply_ops(source_text@, task_id@, set_ops(self)) == Ok::<
                    (Seq<char>, Seq<Seq<char>>),
                    (Seq<char>, WriteErrV),
                >((t@, strs(cs@))),
                Err(e) => apply_ops(source_text@, task_id@, set_ops(self)) == Err::<
                    (Seq<char>, Seq<Seq<char>>),
                    (Seq<char>, WriteErrV),
                >((e.context@, e.error@)),
            },
    {
        let ops = self.ops();
        let ghost all = ops_view(ops@);
        let mut content = source_text.to_string();
        let mut changes: Vec<String> = Vec::new();
        assert(all.take(0) =~= Seq::<SetOp>::empty());
        assert(strs(changes@) =~= Seq::<Seq<char>>::empty());
        let mut i: usize = 0;
        while i < ops.len()
            invariant
                i <= ops.len(),
                all == ops_view(ops@),
                all == set_ops(self),
                apply_ops(source_text@, task_id@, all.take(i as int)) == Ok::<
                    (Seq<char>, Seq<Seq<char>>),
                    (Seq<char>, WriteErrV),
                >((content@, strs(changes@))),
            decreases ops.len() - i,
        {
            let op = &ops[i];
            proof {
                assert(all.take(i + 1).drop_last() =~= all.take(i as int));
                assert(all.take(i + 1).last() == op.view_op());
            }
            match apply_one(&content, task_id, op) {
                Ok(t) => {
                    content = t;
                    let c = op.change();
                    let ghost before = changes@;
                    changes.push(c);
                    proof {
                        assert(changes@ == before.push(c));
                        assert(strs(changes@) =~= strs(before).push(c@));
                    }
                },
                Err(e) => {
                    proof {
                        let pre = all.take(i + 1);
                        assert(pre.drop_last() =~= all.take(i as int));
                        assert(apply_op(content@, task_id@, pre.last()) == Err::<Seq<char>, WriteErrV>(
                            e@,
                        ));
                        assert(apply_ops(source_text@, task_id@, pre) == Err::<
                            (Seq<char>, Seq<Seq<char>>),
                            (Seq<char>, WriteErrV),
                        >((op_context(pre.last()), e@)));
                        lemma_apply_ops_err(source_text@, task_id@, all, i + 1);
                    }
                    let err = MutationError { context: op.context(), error: e };
                    assert(apply_ops(source_text@, task_id@, set_ops(self)) == Err::<
                        (Seq<char>, Seq<Seq<char>>),
                        (Seq<char>, WriteErrV),
                    >((err.context@, err.error@)));
                    return Err(err);
                },
            }
            i = i + 1;
        }
        assert(all.take(ops.len() as int) =~= all);
        Ok((content, changes))
    }
}

/// The report of an updated task: `Task <id> updated: <changes>`.
pub fn updated_message(task_id: &str, changes: &Vec<String>) -> (r: String)
    ensures
        r@ == "Task "@ + task_id@ + " updated: "@ + join(strs(changes@), ", "@),
{
    let mut r = String::new();
    push_str(&mut r, "Task ");
    push_str(&mut r, task_id);
    push_str(&mut r, " updated: ");
    let j = join_strings(changes, ", ");
    push_str(&mut r, j.as_str());
    r
}


/// A successful `set` reports one change per requested change, in order:
/// the descriptions are those of the changes asked for.
pub proof fn law_changes_describe_ops(text: Seq<char>, id: Seq<char>, ops: Seq<SetOp>)
    ensures
        apply_ops(text, id, ops) matches Ok((t, cs)) ==> cs == ops.map_values(|op: SetOp| op_change(op)),
    decreases ops.len(),
{
    if ops.len() > 0 {
        law_changes_describe_ops(text, id, ops.drop_last());
        if let Ok((t, cs)) = apply_ops(text, id, ops) {
            assert(ops.map_values(|op: SetOp| op_change(op)) =~= ops.drop_last().map_values(
                |op: SetOp| op_change(op),
            ).push(op_change(ops.last())));
        }
    }
}

}
