use vstd::prelude::*;
use crate::position::{Position, pos_le};
use crate::text::{split_lines, lemma_split_len};
use crate::undo::EditOp;
use crate::buffer::{
    wf_lines, insert_fits, end_pos, ordered, apply_op, apply_op_ok, unapply_op, unapply_op_ok,
    apply_upto, apply_ops, apply_ops_ok, unapply_from, unapply_ops, unapply_ops_ok, insert_spec,
    delete_spec, lemma_insert_wf, lemma_delete_wf,
};

verus! {

/// The number of line breaks in `t`.
pub open spec fn nl_count(t: Seq<char>) -> int {
    split_lines(t).len() - 1
}

/// On a text of `c` lines, performing `op` touches only existing lines.
pub open spec fn num_apply_op_ok(c: int, op: EditOp) -> bool {
    match op {
        EditOp::Insert { pos, text } => pos.line < c && insert_fits(pos, text@),
        EditOp::Delete { pos, text } => insert_fits(pos, text@) && pos.line + nl_count(text@) < c,
    }
}

/// The number of lines after performing `op` on a text of `c` lines.
pub open spec fn num_apply_op(c: int, op: EditOp) -> int {
    match op {
        EditOp::Insert { pos, text } => c + nl_count(text@),
        EditOp::Delete { pos, text } => c - nl_count(text@),
    }
}

/// On a text of `c` lines, reverting `op` touches only existing lines.
pub open spec fn num_unapply_op_ok(c: int, op: EditOp) -> bool {
    match op {
        EditOp::Insert { pos, text } => insert_fits(pos, text@) && pos.line + nl_count(text@) < c,
        EditOp::Delete { pos, text } => pos.line < c && insert_fits(pos, text@),
    }
}

/// The number of lines after reverting `op` on a text of `c` lines.
pub open spec fn num_unapply_op(c: int, op: EditOp) -> int {
    match op {
        EditOp::Insert { pos, text } => c - nl_count(text@),
        EditOp::Delete { pos, text } => c + nl_count(text@),
    }
}

pub open spec fn num_apply_upto(c: int, ops: Seq<EditOp>, i: int) -> int
    decreases i,
{
    if i <= 0 {
        c
    } else {
        num_apply_op(num_apply_upto(c, ops, i - 1), ops[i - 1])
    }
}

pub open spec fn num_apply(c: int, ops: Seq<EditOp>) -> int {
    num_apply_upto(c, ops, ops.len() as int)
}

pub open spec fn num_apply_ok(c: int, ops: Seq<EditOp>) -> bool {
    forall|i: int| 0 <= i < ops.len() ==> num_apply_op_ok(#[trigger] num_apply_upto(c, ops, i), ops[i])
}

pub open spec fn num_unapply_from(c: int, ops: Seq<EditOp>, i: int) -> int
    decreases ops.len() - i,
{
    if i >= ops.len() || i < 0 {
        c
    } else {
        num_unapply_op(num_unapply_from(c, ops, i + 1), ops[i])
    }
}

pub open spec fn num_unapply(c: int, ops: Seq<EditOp>) -> int {
    num_unapply_from(c, ops, 0)
}

pub open spec fn num_unapply_ok(c: int, ops: Seq<EditOp>) -> bool {
    forall|i: int|
        0 <= i < ops.len() ==> num_unapply_op_ok(#[trigger] num_unapply_from(c, ops, i + 1), ops[i])
}

/// Undoing the stack `us` from the top, starting on a text of `c` lines,
/// touches only existing lines at every step.
pub open spec fn undo_shape_ok(c: int, us: Seq<Seq<EditOp>>) -> bool
    decreases us.len(),
{
    us.len() == 0 || (num_unapply_ok(c, us.last()) && undo_shape_ok(
        num_unapply(c, us.last()),
        us.drop_last(),
    ))
}

/// Redoing the stack `rs` from the top, starting on a text of `c` lines,
/// touches only existing lines at every step.
pub open spec fn redo_shape_ok(c: int, rs: Seq<Seq<EditOp>>) -> bool
    decreases rs.len(),
{
    rs.len() == 0 || (num_apply_ok(c, rs.last()) && redo_shape_ok(
        num_apply(c, rs.last()),
        rs.drop_last(),
    ))
}

proof fn lemma_num_apply_upto_push(c: int, ops: Seq<EditOp>, x: EditOp, i: int)
    requires
        0 <= i <= ops.len(),
    ensures
        num_apply_upto(c, ops.push(x), i) == num_apply_upto(c, ops, i),
    decreases i,
{
    if i > 0 {
        lemma_num_apply_upto_push(c, ops, x, i - 1);
        assert(ops.push(x)[i - 1] == ops[i - 1]);
    }
}

/// Appending an operation that touches only existing lines keeps the
/// whole transaction within existing lines.
pub proof fn lemma_num_push(c: int, ops: Seq<EditOp>, x: EditOp)
    requires
        num_apply_ok(c, ops),
        num_apply_op_ok(num_apply(c, ops), x),
    ensures
        num_apply_ok(c, ops.push(x)),
        num_apply(c, ops.push(x)) == num_apply_op(num_apply(c, ops), x),
{
    let t = ops.push(x);
    assert forall|i: int| 0 <= i < t.len() implies num_apply_op_ok(#[trigger] num_apply_upto(c, t, i), t[i]) by {
        lemma_num_apply_upto_push(c, ops, x, i);
        if i < ops.len() {
            assert(t[i] == ops[i]);
        }
    }
    lemma_num_apply_upto_push(c, ops, x, ops.len() as int);
}

/// The end of an insertion lies `nl_count(t)` lines further down, not
/// before its start.
pub proof fn lemma_end_pos(p: Position, t: Seq<char>)
    requires
        insert_fits(p, t),
    ensures
        end_pos(p, t).line == p.line + nl_count(t),
        pos_le(p, end_pos(p, t)),
        ordered(p, end_pos(p, t)) == (p, end_pos(p, t)),
{
    lemma_split_len(t);
}

/// A step that is fine by line counts is fine on the text itself, keeps
/// it well formed and changes its line count as counted.
pub proof fn lemma_num_apply_op(ls: Seq<Seq<char>>, op: EditOp)
    requires
        wf_lines(ls),
        num_apply_op_ok(ls.len() as int, op),
    ensures
        apply_op_ok(ls, op),
        wf_lines(apply_op(ls, op)),
        apply_op(ls, op).len() == num_apply_op(ls.len() as int, op),
{
    match op {
        EditOp::Insert { pos, text } => {
            lemma_insert_wf(ls, pos, text@);
        },
        EditOp::Delete { pos, text } => {
            lemma_end_pos(pos, text@);
            lemma_delete_wf(ls, pos, end_pos(pos, text@));
        },
    }
}

pub proof fn lemma_num_unapply_op(ls: Seq<Seq<char>>, op: EditOp)
    requires
        wf_lines(ls),
        num_unapply_op_ok(ls.len() as int, op),
    ensures
        unapply_op_ok(ls, op),
        wf_lines(unapply_op(ls, op)),
        unapply_op(ls, op).len() == num_unapply_op(ls.len() as int, op),
{
    match op {
        EditOp::Insert { pos, text } => {
            lemma_end_pos(pos, text@);
            lemma_delete_wf(ls, pos, end_pos(pos, text@));
        },
        EditOp::Delete { pos, text } => {
            lemma_insert_wf(ls, pos, text@);
        },
    }
}

proof fn lemma_num_apply_upto(ls: Seq<Seq<char>>, ops: Seq<EditOp>, k: int)
    requires
        wf_lines(ls),
        num_apply_ok(ls.len() as int, ops),
        0 <= k <= ops.len(),
    ensures
        wf_lines(apply_upto(ls, ops, k)),
        apply_upto(ls, ops, k).len() == num_apply_upto(ls.len() as int, ops, k),
        forall|i: int| 0 <= i < k ==> apply_op_ok(#[trigger] apply_upto(ls, ops, i), ops[i]),
    decreases k,
{
    if k > 0 {
        lemma_num_apply_upto(ls, ops, k - 1);
        assert(num_apply_op_ok(num_apply_upto(ls.len() as int, ops, k - 1), ops[k - 1]));
        lemma_num_apply_op(apply_upto(ls, ops, k - 1), ops[k - 1]);
    }
}

/// A transaction that is fine by line counts can be performed without
/// panics, keeps the text well formed and ends with the counted lines.
pub proof fn lemma_num_apply(ls: Seq<Seq<char>>, ops: Seq<EditOp>)
    requires
        wf_lines(ls),
        num_apply_ok(ls.len() as int, ops),
    ensures
        apply_ops_ok(ls, ops),
        wf_lines(apply_ops(ls, ops)),
        apply_ops(ls, ops).len() == num_apply(ls.len() as int, ops),
{
    lemma_num_apply_upto(ls, ops, ops.len() as int);
}

proof fn lemma_num_unapply_from(ls: Seq<Seq<char>>, ops: Seq<EditOp>, k: int)
    requires
        wf_lines(ls),
        num_unapply_ok(ls.len() as int, ops),
        0 <= k <= ops.len(),
    ensures
        wf_lines(unapply_from(ls, ops, k)),
        unapply_from(ls, ops, k).len() == num_unapply_from(ls.len() as int, ops, k),
        forall|i: int| k <= i < ops.len() ==> unapply_op_ok(#[trigger] unapply_from(ls, ops, i + 1), ops[i]),
    decreases ops.len() - k,
{
    if k < ops.len() {
        lemma_num_unapply_from(ls, ops, k + 1);
        assert(num_unapply_op_ok(num_unapply_from(ls.len() as int, ops, k + 1), ops[k]));
        lemma_num_unapply_op(unapply_from(ls, ops, k + 1), ops[k]);
    }
}

/// A transaction whose reversal is fine by line counts can be reverted
/// without panics, keeps the text well formed and ends with the counted
/// lines.
pub proof fn lemma_num_unapply(ls: Seq<Seq<char>>, ops: Seq<EditOp>)
    requires
        wf_lines(ls),
        num_unapply_ok(ls.len() as int, ops),
    ensures
        unapply_ops_ok(ls, ops),
        wf_lines(unapply_ops(ls, ops)),
        unapply_ops(ls, ops).len() == num_unapply(ls.len() as int, ops),
{
    lemma_num_unapply_from(ls, ops, 0);
}

proof fn lemma_num_redo_after_undo_upto(c: int, ops: Seq<EditOp>, k: int)
    requires
        num_unapply_ok(c, ops),
        0 <= k <= ops.len(),
    ensures
        num_apply_upto(num_unapply(c, ops), ops, k) == num_unapply_from(c, ops, k),
        forall|i: int| 0 <= i < k ==> num_apply_op_ok(#[trigger] num_apply_upto(num_unapply(c, ops), ops, i), ops[i]),
    decreases k,
{
    if k > 0 {
        lemma_num_redo_after_undo_upto(c, ops, k - 1);
        assert(num_unapply_op_ok(num_unapply_from(c, ops, k), ops[k - 1]));
    }
}

/// By line counts, a reverted transaction can be performed again and
/// gives back the count it was reverted from.
pub proof fn lemma_num_redo_after_undo(c: int, ops: Seq<EditOp>)
    requires
        num_unapply_ok(c, ops),
    ensures
        num_apply_ok(num_unapply(c, ops), ops),
        num_apply(num_unapply(c, ops), ops) == c,
{
    lemma_num_redo_after_undo_upto(c, ops, ops.len() as int);
}

proof fn lemma_num_undo_after_redo_from(c: int, ops: Seq<EditOp>, k: int)
    requires
        num_apply_ok(c, ops),
        0 <= k <= ops.len(),
    ensures
        num_unapply_from(num_apply(c, ops), ops, k) == num_apply_upto(c, ops, k),
        forall|i: int| k <= i < ops.len() ==> num_unapply_op_ok(#[trigger] num_unapply_from(num_apply(c, ops), ops, i + 1), ops[i]),
    decreases ops.len() - k,
{
    if k < ops.len() {
        lemma_num_undo_after_redo_from(c, ops, k + 1);
        assert(num_apply_op_ok(num_apply_upto(c, ops, k), ops[k]));
    }
}

/// By line counts, a performed transaction can be reverted and gives back
/// the count it started from.
pub proof fn lemma_num_undo_after_redo(c: int, ops: Seq<EditOp>)
    requires
        num_apply_ok(c, ops),
    ensures
        num_unapply_ok(num_apply(c, ops), ops),
        num_unapply(num_apply(c, ops), ops) == c,
{
    lemma_num_undo_after_redo_from(c, ops, 0);
}

} // verus!
