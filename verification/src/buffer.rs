use vstd::prelude::*;
use vstd::utf8::{encode_utf8, encode_scalar};
use vstd::string::StringSliceAdditionalSpecFns;
use crate::position::{Position, pos_le};
use crate::undo::{EditOp, Transaction};
use crate::width::{char_width, unicode_char_width};
use crate::text::{
    no_newline, all_no_newline, normalize_crlf, split_lines, join_lines, lines_view,
    lemma_split_no_newline, lemma_split_prefix, lemma_split_suffix, lemma_split_count,
    lemma_normalize_len, lemma_normalize_split, lemma_split_len, lemma_split_join,
    lemma_join_split, lemma_join_push, lemma_join_prefix, lemma_join_suffix, lemma_split_single, lemma_split_piece_len, to_chars, string_of, extend_chars, normalize_chars,
    split_chars, push_lines, push_char,
};

verus! {

/// A text held as a sequence of lines. There is always at least one line,
/// and no line holds a line break.
pub struct LineBuffer {
    lines: Vec<String>,
}

/// A well-formed sequence of lines: at least one, none with a line break.
pub open spec fn wf_lines(ls: Seq<Seq<char>>) -> bool {
    ls.len() >= 1 && all_no_newline(ls)
}

/// A column clamped to the end of the line.
pub open spec fn clamp_col(line: Seq<char>, col: usize) -> int {
    if col <= line.len() {
        col as int
    } else {
        line.len() as int
    }
}

/// `p` names an existing line and a column within (or at the end of) it.
pub open spec fn pos_valid(ls: Seq<Seq<char>>, p: Position) -> bool {
    p.line < ls.len() && p.col <= ls[p.line as int].len()
}

/// The position after `t` inserted at `p` is representable: its column (if
/// `t` is one line) or its line (otherwise) fits in `usize`.
pub open spec fn insert_fits(p: Position, t: Seq<char>) -> bool {
    if split_lines(t).len() == 1 {
        p.col + t.len() <= usize::MAX
    } else {
        p.line + split_lines(t).len() - 1 <= usize::MAX
    }
}

/// Where the cursor ends after inserting `t` at `p`: on the last line of
/// `t`, after its last character.
pub open spec fn end_pos(p: Position, t: Seq<char>) -> Position {
    let segs = split_lines(t);
    if segs.len() == 1 {
        Position { line: p.line, col: (p.col + t.len()) as usize }
    } else {
        Position { line: (p.line + segs.len() - 1) as usize, col: segs.last().len() as usize }
    }
}

/// The lines after inserting `t` (with `"\r\n"` read as `"\n"`) at `p`; the
/// column is clamped to the line's end, and a missing line leaves the text
/// unchanged.
pub open spec fn insert_spec(ls: Seq<Seq<char>>, p: Position, t: Seq<char>) -> Seq<Seq<char>> {
    if p.line >= ls.len() {
        ls
    } else {
        let line = ls[p.line as int];
        let b = clamp_col(line, p.col);
        let mid = split_lines(
            line.subrange(0, b) + normalize_crlf(t) + line.subrange(b, line.len() as int),
        );
        ls.subrange(0, p.line as int) + mid + ls.subrange(p.line + 1, ls.len() as int)
    }
}

/// The lines after removing the text from `s` to `e` (`s` not after `e`),
/// columns clamped to their lines' ends.
pub open spec fn delete_spec(ls: Seq<Seq<char>>, s: Position, e: Position) -> Seq<Seq<char>> {
    let sl = ls[s.line as int];
    let el = ls[e.line as int];
    ls.subrange(0, s.line as int) + seq![
        sl.subrange(0, clamp_col(sl, s.col)) + el.subrange(clamp_col(el, e.col), el.len() as int),
    ] + ls.subrange(e.line + 1, ls.len() as int)
}

/// The text between `s` and `e` (`s` not after `e`), lines joined by `'\n'`.
pub open spec fn deleted_spec(ls: Seq<Seq<char>>, s: Position, e: Position) -> Seq<char> {
    let sl = ls[s.line as int];
    let el = ls[e.line as int];
    if s.line == e.line {
        sl.subrange(clamp_col(sl, s.col), clamp_col(sl, e.col))
    } else {
        join_lines(
            seq![sl.subrange(clamp_col(sl, s.col), sl.len() as int)] + ls.subrange(
                s.line + 1,
                e.line as int,
            ) + seq![el.subrange(0, clamp_col(el, e.col))],
        )
    }
}

/// The two positions in reading order.
pub open spec fn ordered(a: Position, b: Position) -> (Position, Position) {
    if pos_le(a, b) {
        (a, b)
    } else {
        (b, a)
    }
}


/// Applying `op` is free of panics and overflow on the lines `ls`.
pub open spec fn apply_op_ok(ls: Seq<Seq<char>>, op: EditOp) -> bool {
    match op {
        EditOp::Insert { pos, text } => pos.line < ls.len() ==> insert_fits(pos, text@),
        EditOp::Delete { pos, text } => insert_fits(pos, text@) && pos.line < ls.len() && end_pos(
            pos,
            text@,
        ).line < ls.len(),
    }
}

/// The lines after performing `op`.
pub open spec fn apply_op(ls: Seq<Seq<char>>, op: EditOp) -> Seq<Seq<char>> {
    match op {
        EditOp::Insert { pos, text } => insert_spec(ls, pos, text@),
        EditOp::Delete { pos, text } => delete_spec(
            ls,
            ordered(pos, end_pos(pos, text@)).0,
            ordered(pos, end_pos(pos, text@)).1,
        ),
    }
}

/// Reverting `op` is free of panics and overflow on the lines `ls`.
pub open spec fn unapply_op_ok(ls: Seq<Seq<char>>, op: EditOp) -> bool {
    match op {
        EditOp::Insert { pos, text } => insert_fits(pos, text@) && pos.line < ls.len() && end_pos(
            pos,
            text@,
        ).line < ls.len(),
        EditOp::Delete { pos, text } => pos.line < ls.len() ==> insert_fits(pos, text@),
    }
}

/// The lines after reverting `op`: an insertion is deleted again, a
/// deletion is inserted again.
pub open spec fn unapply_op(ls: Seq<Seq<char>>, op: EditOp) -> Seq<Seq<char>> {
    match op {
        EditOp::Insert { pos, text } => delete_spec(
            ls,
            ordered(pos, end_pos(pos, text@)).0,
            ordered(pos, end_pos(pos, text@)).1,
        ),
        EditOp::Delete { pos, text } => insert_spec(ls, pos, text@),
    }
}

/// The lines after performing the first `i` operations of `ops` in order.
pub open spec fn apply_upto(ls: Seq<Seq<char>>, ops: Seq<EditOp>, i: int) -> Seq<Seq<char>>
    decreases i,
{
    if i <= 0 {
        ls
    } else {
        apply_op(apply_upto(ls, ops, i - 1), ops[i - 1])
    }
}

/// The lines after performing all of `ops` in order.
pub open spec fn apply_ops(ls: Seq<Seq<char>>, ops: Seq<EditOp>) -> Seq<Seq<char>> {
    apply_upto(ls, ops, ops.len() as int)
}

/// Every operation of `ops`, performed in order, is free of panics.
pub open spec fn apply_ops_ok(ls: Seq<Seq<char>>, ops: Seq<EditOp>) -> bool {
    forall|i: int| 0 <= i < ops.len() ==> apply_op_ok(#[trigger] apply_upto(ls, ops, i), ops[i])
}

/// The lines after reverting the operations `ops[i..]`, last first.
pub open spec fn unapply_from(ls: Seq<Seq<char>>, ops: Seq<EditOp>, i: int) -> Seq<Seq<char>>
    decreases ops.len() - i,
{
    if i >= ops.len() || i < 0 {
        ls
    } else {
        unapply_op(unapply_from(ls, ops, i + 1), ops[i])
    }
}

/// The lines after reverting all of `ops`, last first.
pub open spec fn unapply_ops(ls: Seq<Seq<char>>, ops: Seq<EditOp>) -> Seq<Seq<char>> {
    unapply_from(ls, ops, 0)
}

/// Reverting every operation of `ops`, last first, is free of panics.
pub open spec fn unapply_ops_ok(ls: Seq<Seq<char>>, ops: Seq<EditOp>) -> bool {
    forall|i: int| 0 <= i < ops.len() ==> unapply_op_ok(#[trigger] unapply_from(ls, ops, i + 1), ops[i])
}


/// The columns a character advances the display when `w` columns are
/// already used: a tab reaches the next multiple of `tab`; other characters
/// take their Unicode width, control characters none.
pub open spec fn char_advance(c: char, tab: usize, w: int) -> int {
    if c == '\t' {
        tab - w % (tab as int)
    } else {
        match unicode_char_width(c) {
            Some(x) => x as int,
            None => 0,
        }
    }
}

/// The display width of the first `n` characters of `s`.
pub open spec fn width_upto(s: Seq<char>, n: int, tab: usize) -> int
    decreases n,
{
    if n <= 0 {
        0
    } else {
        let w = width_upto(s, n - 1, tab);
        w + char_advance(s[n - 1], tab, w)
    }
}

/// No tab among the first `n` characters needs a zero tab width.
pub open spec fn tabs_ok(s: Seq<char>, n: int, tab: usize) -> bool {
    tab > 0 || forall|i: int| 0 <= i < n ==> s[i] != '\t'
}

pub proof fn lemma_width_monotone(s: Seq<char>, i: int, j: int, tab: usize)
    requires
        0 <= i <= j <= s.len(),
        tabs_ok(s, j, tab),
    ensures
        0 <= width_upto(s, i, tab) <= width_upto(s, j, tab),
    decreases j - i,
{
    if i < j {
        lemma_width_monotone(s, i, j - 1, tab);
        let w = width_upto(s, j - 1, tab);
        if s[j - 1] == '\t' {
            assert(tab > 0);
            assert(w % (tab as int) < tab);
        }
    } else {
        lemma_width_nonneg(s, i, tab);
    }
}

pub proof fn lemma_width_nonneg(s: Seq<char>, i: int, tab: usize)
    requires
        0 <= i <= s.len(),
        tabs_ok(s, i, tab),
    ensures
        0 <= width_upto(s, i, tab),
    decreases i,
{
    if i > 0 {
        lemma_width_nonneg(s, i - 1, tab);
        let w = width_upto(s, i - 1, tab);
        if s[i - 1] == '\t' {
            assert(tab > 0);
            assert(w % (tab as int) < tab);
        }
    }
}


/// Inserting text keeps the lines well formed.
pub proof fn lemma_insert_wf(ls: Seq<Seq<char>>, p: Position, t: Seq<char>)
    requires
        wf_lines(ls),
    ensures
        wf_lines(insert_spec(ls, p, t)),
        p.line < ls.len() ==> insert_spec(ls, p, t).len() == ls.len() + split_lines(t).len() - 1,
{
    if p.line < ls.len() {
        let line = ls[p.line as int];
        let b = clamp_col(line, p.col);
        let a = line.subrange(0, b);
        let z = line.subrange(b, line.len() as int);
        let x = normalize_crlf(t);
        assert(no_newline(line));
        assert(no_newline(a));
        assert(no_newline(z));
        let mid = split_lines(a + x + z);
        lemma_split_no_newline(a + x + z);
        assert(a + x + z =~= a + (x + z));
        lemma_split_prefix(a, x + z);
        lemma_split_suffix(x, z);
        lemma_split_len(x);
        lemma_normalize_split(t);
        let r = insert_spec(ls, p, t);
        assert forall|i: int| 0 <= i < r.len() implies no_newline(#[trigger] r[i]) by {
            if i < p.line {
                assert(r[i] == ls[i]);
            } else if i < p.line + mid.len() {
                assert(r[i] == mid[i - p.line]);
            } else {
                assert(r[i] == ls[i - mid.len() + 1]);
            }
        }
    }
}

/// Deleting text keeps the lines well formed.
pub proof fn lemma_delete_wf(ls: Seq<Seq<char>>, s: Position, e: Position)
    requires
        wf_lines(ls),
        s.line <= e.line < ls.len(),
    ensures
        wf_lines(delete_spec(ls, s, e)),
        delete_spec(ls, s, e).len() == ls.len() - (e.line - s.line),
{
    let r = delete_spec(ls, s, e);
    assert(no_newline(ls[s.line as int]));
    assert(no_newline(ls[e.line as int]));
    assert forall|k: int| 0 <= k < r.len() implies no_newline(#[trigger] r[k]) by {
        if k < s.line {
            assert(r[k] == ls[k]);
        } else if k == s.line {
        } else {
            assert(r[k] == ls[k + e.line - s.line]);
        }
    }
}

/// Inserting text and then deleting from the insertion point to the
/// position `insert` returned restores the lines, and what is deleted is
/// the inserted text (with `"\r\n"` read as `"\n"`).
pub proof fn lemma_insert_then_delete(ls: Seq<Seq<char>>, p: Position, t: Seq<char>)
    requires
        wf_lines(ls),
        pos_valid(ls, p),
        insert_fits(p, t),
        t.len() <= usize::MAX,
    ensures
        pos_le(p, end_pos(p, t)),
        pos_valid(insert_spec(ls, p, t), p),
        pos_valid(insert_spec(ls, p, t), end_pos(p, t)),
        delete_spec(insert_spec(ls, p, t), p, end_pos(p, t)) == ls,
        deleted_spec(insert_spec(ls, p, t), p, end_pos(p, t)) == normalize_crlf(t),
{
    let i = p.line as int;
    let line = ls[i];
    let b = p.col as int;
    let a = line.subrange(0, b);
    let z = line.subrange(b, line.len() as int);
    let x = normalize_crlf(t);
    assert(no_newline(line));
    assert(no_newline(a));
    assert(no_newline(z));
    assert(a + x + z =~= a + (x + z));
    lemma_split_prefix(a, x + z);
    lemma_split_suffix(x, z);
    lemma_split_len(x);
    lemma_normalize_split(t);
    lemma_split_count(t);
    lemma_normalize_len(t);
    lemma_split_no_newline(x);
    let sx = split_lines(x);
    let n = sx.len();
    let mid = split_lines(a + x + z);
    let l2 = insert_spec(ls, p, t);
    let e = end_pos(p, t);
    assert(l2 =~= ls.subrange(0, i) + mid + ls.subrange(i + 1, ls.len() as int));
    assert(mid.len() == n);
    assert(l2[i] == mid[0]);
    assert(l2[i + n - 1] == mid[n - 1]);
    assert(a + z =~= line);
    if n == 1 {
        assert(no_newline(t));
        assert(x == t);
        lemma_split_single(x);
        assert(sx[0] == x);
        assert(mid[0] =~= a + x + z);
        let sl = mid[0];
        assert(sl.subrange(0, b) =~= a);
        assert(sl.subrange(b + x.len(), sl.len() as int) =~= z);
        assert(sl.subrange(b, b + x.len()) =~= x);
        assert(delete_spec(l2, p, e) =~= ls);
    } else {
        let sl = mid[0];
        let el = mid[n - 1];
        assert(e.line == i + n - 1);
        lemma_split_piece_len(t);
        assert(split_lines(t)[n - 1].len() <= t.len());
        assert(e.col == sx[n - 1].len());
        assert(l2.subrange(0, i) =~= ls.subrange(0, i));
        assert(l2.subrange(i + n, l2.len() as int) =~= ls.subrange(i + 1, ls.len() as int));
        assert(sl =~= a + sx[0]);
        assert(el =~= sx[n - 1] + z);
        assert(sl.subrange(0, b) =~= a);
        assert(el.subrange(sx[n - 1].len() as int, el.len() as int) =~= z);
        assert(delete_spec(l2, p, e) =~= ls);
        let pieces = seq![sl.subrange(b, sl.len() as int)] + l2.subrange(i + 1, i + n - 1) + seq![
            el.subrange(0, sx[n - 1].len() as int),
        ];
        assert(sl.subrange(b, sl.len() as int) =~= sx[0]);
        assert(el.subrange(0, sx[n - 1].len() as int) =~= sx[n - 1]);
        assert(pieces =~= sx);
        lemma_join_split(x);
    }
}

/// Deleting a range of text and inserting the deleted text again where it
/// started restores the lines, provided the deleted text holds no
/// `"\r\n"`; the inserted text then ends where the range ended.
pub proof fn lemma_delete_then_insert(ls: Seq<Seq<char>>, s: Position, e: Position)
    requires
        wf_lines(ls),
        pos_valid(ls, s),
        pos_valid(ls, e),
        pos_le(s, e),
        normalize_crlf(deleted_spec(ls, s, e)) == deleted_spec(ls, s, e),
    ensures
        insert_spec(delete_spec(ls, s, e), s, deleted_spec(ls, s, e)) == ls,
        end_pos(s, deleted_spec(ls, s, e)) == e,
{
    let c = deleted_spec(ls, s, e);
    let sl = ls[s.line as int];
    let el = ls[e.line as int];
    assert(no_newline(sl));
    assert(no_newline(el));
    let a = sl.subrange(0, s.col as int);
    let z = el.subrange(e.col as int, el.len() as int);
    let l2 = delete_spec(ls, s, e);
    let line2 = l2[s.line as int];
    assert(line2 =~= a + z);
    assert(line2.subrange(0, s.col as int) =~= a);
    assert(line2.subrange(s.col as int, line2.len() as int) =~= z);
    if s.line == e.line {
        assert(a + c + z =~= sl);
        lemma_split_single(sl);
        lemma_split_single(c);
        assert(insert_spec(l2, s, c) =~= ls);
    } else {
        let first = sl.subrange(s.col as int, sl.len() as int);
        let last = el.subrange(0, e.col as int);
        let pieces = seq![first] + ls.subrange(s.line + 1, e.line as int) + seq![last];
        assert forall|k: int| 0 <= k < pieces.len() implies no_newline(#[trigger] pieces[k]) by {
            if k == 0 {
            } else if k == pieces.len() - 1 {
            } else {
                assert(pieces[k] == ls[s.line + k]);
            }
        }
        lemma_join_prefix(a, pieces);
        let p2 = pieces.update(0, a + pieces[0]);
        lemma_join_suffix(p2, z);
        let p3 = p2.update(p2.len() - 1, p2.last() + z);
        assert(a + first =~= sl);
        assert(last + z =~= el);
        assert(p3 =~= ls.subrange(s.line as int, e.line + 1));
        assert(a + c + z =~= join_lines(p3));
        assert forall|k: int| 0 <= k < p3.len() implies no_newline(#[trigger] p3[k]) by {
            assert(p3[k] == ls[s.line + k]);
        }
        lemma_split_join(p3);
        lemma_split_join(pieces);
        assert(insert_spec(l2, s, c) =~= ls);
    }
}


/// `op` can be performed on `ls` and reverted exactly: positions lie within
/// their lines, and a deletion records exactly the text it removes, which
/// holds no `"\r\n"`.
pub open spec fn op_revertible(ls: Seq<Seq<char>>, op: EditOp) -> bool {
    match op {
        EditOp::Insert { pos, text } => pos_valid(ls, pos) && insert_fits(pos, text@) && text@.len()
            <= usize::MAX,
        EditOp::Delete { pos, text } => {
            let e = end_pos(pos, text@);
            &&& insert_fits(pos, text@)
            &&& pos_valid(ls, pos)
            &&& pos_valid(ls, e)
            &&& pos_le(pos, e)
            &&& deleted_spec(ls, pos, e) == text@
            &&& normalize_crlf(text@) == text@
        },
    }
}

/// Every operation of `ops`, performed in order from `ls`, is revertible.
pub open spec fn txn_revertible(ls: Seq<Seq<char>>, ops: Seq<EditOp>) -> bool {
    forall|i: int| 0 <= i < ops.len() ==> op_revertible(#[trigger] apply_upto(ls, ops, i), ops[i])
}

/// Reverting a revertible operation right after performing it restores the
/// lines.
pub proof fn lemma_op_roundtrip(ls: Seq<Seq<char>>, op: EditOp)
    requires
        wf_lines(ls),
        op_revertible(ls, op),
    ensures
        apply_op_ok(ls, op),
        wf_lines(apply_op(ls, op)),
        unapply_op_ok(apply_op(ls, op), op),
        unapply_op(apply_op(ls, op), op) == ls,
{
    match op {
        EditOp::Insert { pos, text } => {
            lemma_insert_then_delete(ls, pos, text@);
            lemma_insert_wf(ls, pos, text@);
        },
        EditOp::Delete { pos, text } => {
            let e = end_pos(pos, text@);
            lemma_delete_then_insert(ls, pos, e);
            lemma_delete_wf(ls, pos, e);
        },
    }
}

proof fn lemma_apply_upto_facts(ls: Seq<Seq<char>>, ops: Seq<EditOp>, k: int)
    requires
        wf_lines(ls),
        txn_revertible(ls, ops),
        0 <= k <= ops.len(),
    ensures
        wf_lines(apply_upto(ls, ops, k)),
        forall|i: int| 0 <= i < k ==> apply_op_ok(#[trigger] apply_upto(ls, ops, i), ops[i]),
    decreases k,
{
    if k > 0 {
        lemma_apply_upto_facts(ls, ops, k - 1);
        assert(op_revertible(apply_upto(ls, ops, k - 1), ops[k - 1]));
        lemma_op_roundtrip(apply_upto(ls, ops, k - 1), ops[k - 1]);
    }
}

proof fn lemma_unapply_from_apply(ls: Seq<Seq<char>>, ops: Seq<EditOp>, k: int)
    requires
        wf_lines(ls),
        txn_revertible(ls, ops),
        0 <= k <= ops.len(),
    ensures
        unapply_from(apply_ops(ls, ops), ops, k) == apply_upto(ls, ops, k),
        forall|i: int| k <= i < ops.len() ==> unapply_op_ok(
            #[trigger] unapply_from(apply_ops(ls, ops), ops, i + 1),
            ops[i],
        ),
    decreases ops.len() - k,
{
    if k < ops.len() {
        lemma_unapply_from_apply(ls, ops, k + 1);
        lemma_apply_upto_facts(ls, ops, k);
        assert(op_revertible(apply_upto(ls, ops, k), ops[k]));
        lemma_op_roundtrip(apply_upto(ls, ops, k), ops[k]);
    }
}

/// Reverting a revertible transaction right after performing it restores
/// the lines, and neither step panics.
pub proof fn lemma_transaction_roundtrip(ls: Seq<Seq<char>>, ops: Seq<EditOp>)
    requires
        wf_lines(ls),
        txn_revertible(ls, ops),
    ensures
        apply_ops_ok(ls, ops),
        unapply_ops_ok(apply_ops(ls, ops), ops),
        unapply_ops(apply_ops(ls, ops), ops) == ls,
{
    lemma_apply_upto_facts(ls, ops, ops.len() as int);
    lemma_unapply_from_apply(ls, ops, 0);
}


proof fn lemma_apply_upto_push(ls: Seq<Seq<char>>, ops: Seq<EditOp>, x: EditOp, i: int)
    requires
        0 <= i <= ops.len(),
    ensures
        apply_upto(ls, ops.push(x), i) == apply_upto(ls, ops, i),
    decreases i,
{
    if i > 0 {
        lemma_apply_upto_push(ls, ops, x, i - 1);
        assert(ops.push(x)[i - 1] == ops[i - 1]);
    }
}

/// Appending an operation that is revertible where the transaction leaves
/// the lines keeps the transaction revertible, and performs that operation
/// last.
pub proof fn lemma_txn_push(ls: Seq<Seq<char>>, ops: Seq<EditOp>, x: EditOp)
    requires
        txn_revertible(ls, ops),
        op_revertible(apply_ops(ls, ops), x),
    ensures
        txn_revertible(ls, ops.push(x)),
        apply_ops(ls, ops.push(x)) == apply_op(apply_ops(ls, ops), x),
{
    let t = ops.push(x);
    assert forall|i: int| 0 <= i < t.len() implies op_revertible(#[trigger] apply_upto(ls, t, i), t[i]) by {
        lemma_apply_upto_push(ls, ops, x, i);
        if i < ops.len() {
            assert(t[i] == ops[i]);
        }
    }
    lemma_apply_upto_push(ls, ops, x, ops.len() as int);
}

/// The number of `'\n'` in `t`.
pub open spec fn count_nl(t: Seq<char>) -> int
    decreases t.len(),
{
    if t.len() == 0 {
        0
    } else {
        (if t[0] == '\n' {
            1int
        } else {
            0int
        }) + count_nl(t.drop_first())
    }
}

/// A text splits into one more piece than it has line breaks.
pub proof fn lemma_split_count_nl(t: Seq<char>)
    ensures
        split_lines(t).len() == count_nl(t) + 1,
        0 <= count_nl(t) <= t.len(),
    decreases t.len(),
{
    if t.len() > 0 {
        lemma_split_count_nl(t.drop_first());
    }
}

/// Whether inserting `text` at `p` is representable (see `insert_fits`).
pub fn insert_fits_exec(p: Position, text: &str) -> (b: bool)
    ensures
        b == insert_fits(p, text@),
{
    let cs = to_chars(text);
    let n = cs.len();
    let mut i = n;
    let mut nl: usize = 0;
    proof {
        assert(cs@.subrange(n as int, n as int) =~= Seq::<char>::empty());
    }
    while i > 0
        invariant
            i <= n == cs@.len(),
            nl == count_nl(cs@.subrange(i as int, n as int)),
            nl <= n - i,
        decreases i,
    {
        proof {
            assert(cs@.subrange(i - 1, n as int).drop_first() =~= cs@.subrange(i as int, n as int));
        }
        if cs[i - 1] == '\n' {
            nl = nl + 1;
        }
        i = i - 1;
    }
    proof {
        assert(cs@.subrange(0, n as int) =~= text@);
        lemma_split_count_nl(text@);
    }
    if nl == 0 {
        p.col <= usize::MAX - n
    } else {
        p.line <= usize::MAX - nl
    }
}

/// The columns `ch` advances the display when `current_width` columns
/// are used (see `char_advance`).
pub fn char_display_width(ch: char, tab_width: usize, current_width: usize) -> (w: usize)
    requires
        ch == '\t' ==> tab_width > 0,
    ensures
        w == char_advance(ch, tab_width, current_width as int),
{
    if ch == '\t' {
        tab_width - (current_width % tab_width)
    } else {
        match char_width(ch) {
            Some(x) => x,
            None => 0,
        }
    }
}

/// The number of bytes `c` takes in UTF-8.
fn utf8_width(c: char) -> (n: usize)
    ensures
        n == encode_scalar(c as u32).len(),
{
    let v = c as u32;
    if v <= 0x7F {
        1
    } else if v <= 0x7FF {
        2
    } else if v <= 0xFFFF {
        3
    } else {
        4
    }
}

/// Encoding a concatenation encodes each part in turn.
pub proof fn lemma_encode_concat(a: Seq<char>, b: Seq<char>)
    ensures
        encode_utf8(a + b) == encode_utf8(a) + encode_utf8(b),
    decreases a.len(),
{
    if a.len() == 0 {
        assert(a + b =~= b);
        assert(encode_utf8(a) + encode_utf8(b) =~= encode_utf8(b));
    } else {
        lemma_encode_concat(a.drop_first(), b);
        assert((a + b).drop_first() =~= a.drop_first() + b);
        assert(encode_utf8(a + b) =~= encode_utf8(a) + encode_utf8(b));
    }
}

/// The byte offset in `s` of its character number `char_idx`, or the
/// length of `s` in bytes past its last character.
pub fn char_idx_to_byte_idx(s: &str, char_idx: usize) -> (r: usize)
    requires
        s.spec_bytes().len() <= usize::MAX,
    ensures
        r == encode_utf8(s@.take(if char_idx <= s@.len() { char_idx as int } else { s@.len() as int })).len(),
{
    let cs = to_chars(s);
    let lim = if char_idx <= cs.len() {
        char_idx
    } else {
        cs.len()
    };
    let mut total: usize = 0;
    let mut i: usize = 0;
    proof {
        assert(s@.take(0) =~= Seq::<char>::empty());
    }
    while i < lim
        invariant
            i <= lim <= cs@.len(),
            cs@ == s@,
            encode_utf8(s@).len() <= usize::MAX,
            total == encode_utf8(s@.take(i as int)).len(),
        decreases lim - i,
    {
        proof {
            assert(s@.take(i + 1) =~= s@.take(i as int) + seq![s@[i as int]]);
            lemma_encode_concat(s@.take(i as int), seq![s@[i as int]]);
            assert(seq![s@[i as int]].drop_first() =~= Seq::<char>::empty());
            assert(encode_utf8(Seq::<char>::empty()) =~= Seq::<u8>::empty());
            assert(encode_utf8(seq![s@[i as int]]) =~= encode_scalar(s@[i as int] as u32));
            assert(s@ =~= s@.take(i + 1) + s@.skip(i + 1));
            lemma_encode_concat(s@.take(i + 1), s@.skip(i + 1));
        }
        total = total + utf8_width(cs[i]);
        i = i + 1;
    }
    total
}

/// What a deletion removes spans as many line breaks as lines it joins, and
/// inserting it again at its start ends where the deletion ended.
pub proof fn lemma_deleted_facts(ls: Seq<Seq<char>>, s: Position, e: Position)
    requires
        wf_lines(ls),
        s.line <= e.line < ls.len(),
        pos_le(s, e),
    ensures
        split_lines(deleted_spec(ls, s, e)).len() == e.line - s.line + 1,
        insert_fits(s, deleted_spec(ls, s, e)),
        pos_valid(ls, s) && pos_valid(ls, e) ==> end_pos(s, deleted_spec(ls, s, e)) == e,
{
    let c = deleted_spec(ls, s, e);
    let sl = ls[s.line as int];
    let el = ls[e.line as int];
    assert(no_newline(sl));
    assert(no_newline(el));
    if s.line == e.line {
        assert(no_newline(c));
        lemma_split_single(c);
    } else {
        let first = sl.subrange(clamp_col(sl, s.col), sl.len() as int);
        let last = el.subrange(0, clamp_col(el, e.col));
        let pieces = seq![first] + ls.subrange(s.line + 1, e.line as int) + seq![last];
        assert forall|k: int| 0 <= k < pieces.len() implies no_newline(#[trigger] pieces[k]) by {
            if k == 0 {
            } else if k == pieces.len() - 1 {
            } else {
                assert(pieces[k] == ls[s.line + k]);
            }
        }
        lemma_split_join(pieces);
        assert(split_lines(c).last() == last);
    }
}

impl View for LineBuffer {
    type V = Seq<Seq<char>>;

    closed spec fn view(&self) -> Seq<Seq<char>> {
        lines_view(self.lines@)
    }
}

impl LineBuffer {
    #[verifier::type_invariant]
    spec fn inv(&self) -> bool {
        wf_lines(self@)
    }

    /// The lines of a buffer are always well formed.
    pub fn check_wf(&self)
        ensures
            wf_lines(self@),
    {
        proof {
            use_type_invariant(self);
        }
    }

    /// A buffer holding one empty line.
    pub fn new() -> (b: Self)
        ensures
            b@ == seq![Seq::<char>::empty()],
    {
        let mut lines: Vec<String> = Vec::new();
        lines.push(String::new());
        proof {
            assert(lines_view(lines@) =~= seq![Seq::<char>::empty()]);
        }
        LineBuffer { lines }
    }

    /// The text split into lines at each `'\n'`, after `"\r\n"` is read as
    /// `"\n"`.
    pub fn from_str(text: &str) -> (b: Self)
        ensures
            b@ == split_lines(normalize_crlf(text@)),
    {
        let raw = to_chars(text);
        let norm = normalize_chars(&raw);
        let lines = split_chars(&norm);
        proof {
            lemma_split_no_newline(norm@);
        }
        LineBuffer { lines }
    }

    /// The lines joined by `'\n'`.
    pub fn to_string(&self) -> (s: String)
        ensures
            s@ == join_lines(self@),
    {
        proof {
            use_type_invariant(self);
        }
        let n = self.lines.len();
        let mut s = self.lines[0].clone();
        let mut i: usize = 1;
        proof {
            assert(self@.subrange(0, 1) =~= seq![self@[0]]);
        }
        while i < n
            invariant
                n == self@.len(),
                1 <= i <= n,
                s@ == join_lines(self@.subrange(0, i as int)),
            decreases n - i,
        {
            push_char(&mut s, '\n');
            s.append(self.lines[i].as_str());
            proof {
                lemma_join_push(self@.subrange(0, i as int), self@[i as int]);
                assert(self@.subrange(0, i + 1) =~= self@.subrange(0, i as int).push(self@[i as int]));
            }
            i = i + 1;
        }
        proof {
            assert(self@.subrange(0, n as int) =~= self@);
        }
        s
    }


    /// The text from column `cs` of line `sl` to column `ce` of line `el`
    /// (`sl < el`), lines joined by `'\n'`.
    fn text_between(&self, sl: usize, sc: &Vec<char>, cs: usize, el: usize, ec: &Vec<char>, ce: usize) -> (d: String)
        requires
            sl < el < self@.len(),
            sc@ == self@[sl as int],
            ec@ == self@[el as int],
            cs <= sc@.len(),
            ce <= ec@.len(),
        ensures
            d@ == join_lines(
                seq![sc@.subrange(cs as int, sc@.len() as int)] + self@.subrange(sl + 1, el as int)
                    + seq![ec@.subrange(0, ce as int)],
            ),
    {
        let mut d = string_of(sc, cs, sc.len());
        let ghost first = sc@.subrange(cs as int, sc@.len() as int);
        let mut i = sl + 1;
        proof {
            assert(seq![first] + self@.subrange(sl + 1, i as int) =~= seq![first]);
        }
        while i < el
            invariant
                sl < i <= el < self@.len(),
                self.lines@.len() == self@.len(),
                d@ == join_lines(seq![first] + self@.subrange(sl + 1, i as int)),
            decreases el - i,
        {
            push_char(&mut d, '\n');
            d.append(self.lines[i].as_str());
            proof {
                let x = seq![first] + self@.subrange(sl + 1, i as int);
                lemma_join_push(x, self@[i as int]);
                assert(x.push(self@[i as int]) =~= seq![first] + self@.subrange(sl + 1, i + 1));
            }
            i = i + 1;
        }
        let tail = string_of(ec, 0, ce);
        push_char(&mut d, '\n');
        d.append(tail.as_str());
        proof {
            let x = seq![first] + self@.subrange(sl + 1, el as int);
            lemma_join_push(x, tail@);
            assert(x.push(tail@) =~= seq![first] + self@.subrange(sl + 1, el as int) + seq![tail@]);
        }
        d
    }

    /// Lines `0..sl`, then `mid`, then lines `el+1..`.
    fn lines_replaced(&self, sl: usize, el: usize, mid: String) -> (v: Vec<String>)
        requires
            sl <= el < self@.len(),
        ensures
            lines_view(v@) == self@.subrange(0, sl as int) + seq![mid@] + self@.subrange(
                el + 1,
                self@.len() as int,
            ),
    {
        let n = self.lines.len();
        assert(n == self@.len());
        let mut new_lines: Vec<String> = Vec::new();
        push_lines(&mut new_lines, &self.lines, 0, sl);
        let ghost mv = mid@;
        new_lines.push(mid);
        push_lines(&mut new_lines, &self.lines, el + 1, n);
        proof {
            assert(lines_view(new_lines@) =~= self@.subrange(0, sl as int) + seq![mv] + self@.subrange(
                el + 1,
                self@.len() as int,
            ));
        }
        new_lines
    }

    /// Removes the text between `start` and `end` (in either order) and
    /// returns it, lines joined by `'\n'`. Columns past a line's end count
    /// as its end.
    pub fn delete_range(&mut self, start: Position, end: Position) -> (r: String)
        requires
            start.line < old(self)@.len(),
            end.line < old(self)@.len(),
        ensures
            final(self)@ == delete_spec(old(self)@, ordered(start, end).0, ordered(start, end).1),
            r@ == deleted_spec(old(self)@, ordered(start, end).0, ordered(start, end).1),
            wf_lines(old(self)@),
            wf_lines(final(self)@),
    {
        proof {
            use_type_invariant(&*self);
        }
        let ghost old_view = self@;
        let (s, e) = if start <= end {
            (start, end)
        } else {
            (end, start)
        };
        assert(self.lines@.len() == old_view.len());
        let sc = to_chars(self.lines[s.line].as_str());
        let ec = to_chars(self.lines[e.line].as_str());
        let cs = if s.col <= sc.len() {
            s.col
        } else {
            sc.len()
        };
        let ce = if e.col <= ec.len() {
            e.col
        } else {
            ec.len()
        };
        let deleted = if s.line == e.line {
            string_of(&sc, cs, ce)
        } else {
            self.text_between(s.line, &sc, cs, e.line, &ec, ce)
        };
        let mut nl: Vec<char> = Vec::new();
        extend_chars(&mut nl, &sc, 0, cs);
        extend_chars(&mut nl, &ec, ce, ec.len());
        let new_line = string_of(&nl, 0, nl.len());
        proof {
            assert(nl@.subrange(0, nl@.len() as int) =~= nl@);
            assert(no_newline(old_view[s.line as int]));
            assert(no_newline(old_view[e.line as int]));
            assert(no_newline(new_line@));
        }
        let new_lines = self.lines_replaced(s.line, e.line, new_line);
        proof {
            let nv = lines_view(new_lines@);
            assert(nv =~= delete_spec(old_view, s, e));
            assert forall|k: int| 0 <= k < nv.len() implies no_newline(#[trigger] nv[k]) by {
                if k < s.line {
                    assert(nv[k] == old_view[k]);
                } else if k == s.line {
                } else {
                    assert(nv[k] == old_view[k + e.line - s.line]);
                }
            }
        }
        self.lines = new_lines;
        deleted
    }


    /// Performs the operations of `txn` in order.
    pub fn apply_transaction(&mut self, txn: &Transaction)
        requires
            apply_ops_ok(old(self)@, txn@),
        ensures
            final(self)@ == apply_ops(old(self)@, txn@),
    {
        let ghost orig = self@;
        let n = txn.ops.len();
        let mut i: usize = 0;
        while i < n
            invariant
                n == txn@.len(),
                i <= n,
                apply_ops_ok(orig, txn@),
                self@ == apply_upto(orig, txn@, i as int),
            decreases n - i,
        {
            proof {
                assert(apply_op_ok(apply_upto(orig, txn@, i as int), txn@[i as int]));
            }
            match &txn.ops[i] {
                EditOp::Insert { pos, text } => {
                    self.insert(*pos, text.as_str());
                },
                EditOp::Delete { pos, text } => {
                    let end = insert_end_pos(*pos, text.as_str());
                    self.delete_range(*pos, end);
                },
            }
            i = i + 1;
        }
    }

    /// Reverts the operations of `txn`, last first.
    pub fn apply_transaction_inverse(&mut self, txn: &Transaction)
        requires
            unapply_ops_ok(old(self)@, txn@),
        ensures
            final(self)@ == unapply_ops(old(self)@, txn@),
    {
        let ghost orig = self@;
        let n = txn.ops.len();
        let mut i: usize = n;
        while i > 0
            invariant
                n == txn@.len(),
                i <= n,
                unapply_ops_ok(orig, txn@),
                self@ == unapply_from(orig, txn@, i as int),
            decreases i,
        {
            proof {
                assert(unapply_op_ok(unapply_from(orig, txn@, (i - 1) + 1), txn@[i - 1]));
            }
            match &txn.ops[i - 1] {
                EditOp::Insert { pos, text } => {
                    let end = insert_end_pos(*pos, text.as_str());
                    self.delete_range(*pos, end);
                },
                EditOp::Delete { pos, text } => {
                    self.insert(*pos, text.as_str());
                },
            }
            i = i - 1;
        }
    }


    /// The display width of the text of `pos.line` before column `pos.col`,
    /// if that position exists.
    pub fn display_width(&self, pos: Position, tab_width: usize) -> (r: Option<usize>)
        requires
            pos_valid(self@, pos) ==> tabs_ok(self@[pos.line as int], pos.col as int, tab_width)
                && width_upto(self@[pos.line as int], pos.col as int, tab_width) <= usize::MAX,
        ensures
            r == (if pos_valid(self@, pos) {
                Some(width_upto(self@[pos.line as int], pos.col as int, tab_width) as usize)
            } else {
                None::<usize>
            }),
    {
        if pos.line >= self.lines.len() {
            return None;
        }
        let cs = to_chars(self.lines[pos.line].as_str());
        if pos.col > cs.len() {
            return None;
        }
        let ghost line = cs@;
        let mut width: usize = 0;
        let mut i: usize = 0;
        while i < pos.col
            invariant
                line == cs@,
                line == self@[pos.line as int],
                i <= pos.col <= line.len(),
                tabs_ok(line, pos.col as int, tab_width),
                width_upto(line, pos.col as int, tab_width) <= usize::MAX,
                width == width_upto(line, i as int, tab_width),
            decreases pos.col - i,
        {
            proof {
                lemma_width_monotone(line, i + 1, pos.col as int, tab_width);
                lemma_width_nonneg(line, i as int, tab_width);
            }
            let adv = char_display_width(cs[i], tab_width, width);
            width = width + adv;
            i = i + 1;
        }
        Some(width)
    }

    /// The text of line `line`, if it exists.
    pub fn line(&self, line: usize) -> (r: Option<&str>)
        ensures
            r is Some <==> line < self@.len(),
            r is Some ==> r->0@ == self@[line as int],
    {
        if line < self.lines.len() {
            Some(self.lines[line].as_str())
        } else {
            None
        }
    }

    pub fn line_count(&self) -> (n: usize)
        ensures
            n == self@.len(),
            n >= 1,
            wf_lines(self@),
    {
        proof {
            use_type_invariant(self);
        }
        self.lines.len()
    }

    /// The number of characters of line `line`, if it exists.
    pub fn line_len(&self, line: usize) -> (r: Option<usize>)
        ensures
            r is Some <==> line < self@.len(),
            r is Some ==> r->0 == self@[line as int].len(),
            wf_lines(self@),
    {
        proof {
            use_type_invariant(self);
        }
        if line < self.lines.len() {
            let cs = to_chars(self.lines[line].as_str());
            Some(cs.len())
        } else {
            None
        }
    }

    /// Inserts `text` at `pos` and returns the position just after it. A
    /// `"\r\n"` in `text` is read as `"\n"`; a column past the line's end
    /// inserts at the end; a missing line changes nothing and gives `pos`
    /// back.
    pub fn insert(&mut self, pos: Position, text: &str) -> (r: Position)
        requires
            pos.line < old(self)@.len() ==> insert_fits(pos, text@),
        ensures
            final(self)@ == insert_spec(old(self)@, pos, text@),
            r == (if pos.line < old(self)@.len() {
                end_pos(pos, text@)
            } else {
                pos
            }),
            text@.len() <= usize::MAX,
            wf_lines(final(self)@),
    {
        proof {
            use_type_invariant(&*self);
        }
        let text_len = to_chars(text).len();
        if pos.line >= self.lines.len() {
            return pos;
        }
        let ghost old_view = self@;
        let lc = to_chars(self.lines[pos.line].as_str());
        let raw = to_chars(text);
        let tc = normalize_chars(&raw);
        let b = if pos.col <= lc.len() {
            pos.col
        } else {
            lc.len()
        };
        let mut comb: Vec<char> = Vec::new();
        extend_chars(&mut comb, &lc, 0, b);
        extend_chars(&mut comb, &tc, 0, tc.len());
        extend_chars(&mut comb, &lc, b, lc.len());
        let mid = split_chars(&comb);
        let mut new_lines: Vec<String> = Vec::new();
        push_lines(&mut new_lines, &self.lines, 0, pos.line);
        push_lines(&mut new_lines, &mid, 0, mid.len());
        push_lines(&mut new_lines, &self.lines, pos.line + 1, self.lines.len());
        proof {
            assert(tc@.subrange(0, tc@.len() as int) =~= tc@);
            assert(comb@ =~= lc@.subrange(0, b as int) + normalize_crlf(text@) + lc@.subrange(
                b as int,
                lc@.len() as int,
            ));
            assert(lines_view(mid@).subrange(0, mid@.len() as int) =~= lines_view(mid@));
            assert(lines_view(new_lines@) =~= insert_spec(old_view, pos, text@));
            lemma_split_no_newline(comb@);
            let nv = lines_view(new_lines@);
            assert forall|i: int| 0 <= i < nv.len() implies no_newline(#[trigger] nv[i]) by {
                if i < pos.line {
                    assert(nv[i] == old_view[i]);
                } else if i < pos.line + mid@.len() {
                    assert(nv[i] == lines_view(mid@)[i - pos.line]);
                } else {
                    assert(nv[i] == old_view[i - mid@.len() + 1]);
                }
            }
        }
        self.lines = new_lines;
        let segs = split_chars(&tc);
        let n = segs.len();
        proof {
            lemma_normalize_split(text@);
            lemma_split_count(text@);
            lemma_normalize_len(text@);
            lemma_split_count(normalize_crlf(text@));
        }
        if n == 1 {
            Position::new(pos.line, pos.col + tc.len())
        } else {
            let last = to_chars(segs[n - 1].as_str());
            proof {
                assert(lines_view(segs@)[n - 1] == segs@[n - 1]@);
            }
            Position::new(pos.line + (n - 1), last.len())
        }
    }
}


/// The position just after `text` when it is inserted at `start`.
pub fn insert_end_pos(start: Position, text: &str) -> (r: Position)
    requires
        insert_fits(start, text@),
    ensures
        r == end_pos(start, text@),
{
    let tc = to_chars(text);
    let segs = split_chars(&tc);
    let n = segs.len();
    proof {
        lemma_split_count(text@);
    }
    if n == 1 {
        Position::new(start.line, start.col + tc.len())
    } else {
        let last = to_chars(segs[n - 1].as_str());
        proof {
            assert(lines_view(segs@)[n - 1] == segs@[n - 1]@);
        }
        Position::new(start.line + (n - 1), last.len())
    }
}


impl Default for LineBuffer {
    fn default() -> (b: Self)
        ensures
            b@ == seq![Seq::<char>::empty()],
    {
        Self::new()
    }
}

impl From<&str> for LineBuffer {
    fn from(text: &str) -> (b: Self)
        ensures
            b@ == split_lines(normalize_crlf(text@)),
    {
        Self::from_str(text)
    }
}

impl vstd::std_specs::convert::FromSpecImpl<&str> for LineBuffer {
    open spec fn obeys_from_spec() -> bool {
        false
    }

    open spec fn from_spec(v: &str) -> Self {
        arbitrary()
    }
}

} // verus!
