use vstd::prelude::*;
use crate::position::{Position, pos_le};
use crate::selection::{Selection, sorted_spec};
use crate::text::{
    normalize_crlf, split_lines, join_lines, no_newline, lemma_split_single, lemma_split_join,
    lemma_normalize_split, to_chars, char_string,
};
use crate::buffer::{
    wf_lines, clamp_col, insert_spec, delete_spec, deleted_spec, insert_fits, end_pos, pos_valid,
    ordered, apply_op, apply_ops, unapply_ops, op_revertible, txn_revertible,
    lemma_txn_push, lemma_transaction_roundtrip,
};
use crate::history::{
    nl_count, num_apply_ok, num_apply, num_apply_op, num_apply_op_ok, redo_shape_ok, lemma_num_push,
};
use crate::undo::{EditOp, Transaction};
use crate::romaji::char_from_u32;
use crate::editor_state::{
    EditorState, EditorMode, toggled_case, indent_spec, unindent_spec, same_settings,
    same_but_selection, line_len_or0, min_usize, lemma_push_history, insert_target,
    without_selection, clamp_spec,
};
use crate::motion::same_but_selection_and_mode;

verus! {

/// The lines with the character at column `c` of line `l` replaced by `x`.
pub open spec fn replace_char(ls: Seq<Seq<char>>, l: int, c: int, x: char) -> Seq<Seq<char>> {
    ls.update(l, ls[l].update(c, x))
}

/// Some line among `a..=b` starts with a tab.
pub open spec fn any_tab_line(ls: Seq<Seq<char>>, a: int, b: int) -> bool {
    exists|j: int| a <= j <= b && 0 <= j < ls.len() && #[trigger] ls[j].len() > 0 && ls[j][0] == '\t'
}

/// `b` is `a` after one undoable change to the text, which undo reverts
/// exactly.
pub open spec fn recorded_change(a: EditorState, b: EditorState) -> bool {
    &&& b.dirty
    &&& b.redo_stack().len() == 0
    &&& b.undo_stack().len() == a.undo_stack().len() + 1
    &&& b.undo_stack().drop_last() == a.undo_stack()
    &&& unapply_ops(b.buffer@, b.undo_stack().last()) == a.buffer@
}

/// `b` is `a` after toggling the case of the character under the cursor
/// (see `toggle_case`).
pub open spec fn case_toggled(a: EditorState, b: EditorState) -> bool {
    let h = a.selection.head;
    let ls = a.buffer@;
    if h.line < ls.len() && h.col < ls[h.line as int].len() {
        let c = ls[h.line as int][h.col as int];
        &&& b.buffer@ == replace_char(ls, h.line as int, h.col as int, toggled_case(c))
        &&& b.selection == Selection::cursor_spec(
            Position { line: h.line, col: (h.col + 1) as usize },
        )
        &&& b.yank_buffer == a.yank_buffer
        &&& same_settings(a, b)
        &&& toggled_case(c) != c ==> recorded_change(a, b)
        &&& toggled_case(c) == c ==> same_but_selection(a, b)
    } else {
        b == a
    }
}

/// `b` is `a` after indenting the lines the selection touches (see
/// `indent_selection`).
pub open spec fn indented(a: EditorState, b: EditorState) -> bool {
    let (s, e) = sorted_spec(a.selection);
    let ls = a.buffer@;
    &&& b.buffer@ == indent_spec(ls, s.line as int, e.line as int)
    &&& s.line < ls.len() ==> {
        &&& recorded_change(a, b)
        &&& b.selection == a.selection
        &&& b.yank_buffer == a.yank_buffer
        &&& same_settings(a, b)
    }
    &&& s.line >= ls.len() ==> b == a
}

/// `b` is `a` after unindenting the lines the selection touches (see
/// `unindent_selection`).
pub open spec fn unindented(a: EditorState, b: EditorState) -> bool {
    let (s, e) = sorted_spec(a.selection);
    let ls = a.buffer@;
    &&& b.buffer@ == unindent_spec(ls, s.line as int, e.line as int)
    &&& any_tab_line(ls, s.line as int, e.line as int) ==> {
        &&& recorded_change(a, b)
        &&& b.selection == (Selection {
            anchor: clamp_spec(b.buffer@, a.selection.anchor),
            head: clamp_spec(b.buffer@, a.selection.head),
        })
        &&& b.yank_buffer == a.yank_buffer
        &&& same_settings(a, b)
    }
    &&& !any_tab_line(ls, s.line as int, e.line as int) ==> b == a
}

/// `b` is `a` after opening a line below the cursor's line.
pub open spec fn opened_below(a: EditorState, b: EditorState) -> bool {
    let ls = a.buffer@;
    let l = min_usize(a.selection.head.line, ls.len() - 1);
    &&& b.buffer@ == ls.insert(l + 1, Seq::<char>::empty())
    &&& b.selection == Selection::cursor_spec(Position { line: (l + 1) as usize, col: 0 })
    &&& b.mode == EditorMode::Insert
    &&& recorded_change(a, b)
    &&& b.yank_buffer == a.yank_buffer
    &&& b.message == a.message
    &&& b.file_path == a.file_path
    &&& b.command_buffer == a.command_buffer
    &&& b.search_query == a.search_query
    &&& b.skk_engine == a.skk_engine
    &&& b.skk_enabled == a.skk_enabled
}

/// `b` is `a` after opening a line above the cursor's line.
pub open spec fn opened_above(a: EditorState, b: EditorState) -> bool {
    let ls = a.buffer@;
    let l = min_usize(a.selection.head.line, ls.len() - 1);
    &&& b.buffer@ == ls.insert(l as int, Seq::<char>::empty())
    &&& b.selection == Selection::cursor_spec(Position { line: l, col: 0 })
    &&& b.mode == EditorMode::Insert
    &&& recorded_change(a, b)
    &&& b.yank_buffer == a.yank_buffer
    &&& b.message == a.message
    &&& b.file_path == a.file_path
    &&& b.command_buffer == a.command_buffer
    &&& b.search_query == a.search_query
    &&& b.skk_engine == a.skk_engine
    &&& b.skk_enabled == a.skk_enabled
}

proof fn lemma_insert_tab(ls: Seq<Seq<char>>, l: usize)
    requires
        wf_lines(ls),
        l < ls.len(),
    ensures
        insert_spec(ls, Position { line: l, col: 0 }, seq!['\t']) == ls.update(
            l as int,
            seq!['\t'] + ls[l as int],
        ),
        wf_lines(ls.update(l as int, seq!['\t'] + ls[l as int])),
{
    let t = seq!['\t'];
    assert(t.drop_first() =~= Seq::<char>::empty());
    assert(normalize_crlf(t.drop_first()) =~= Seq::<char>::empty());
    assert(normalize_crlf(t) =~= seq![t[0]] + normalize_crlf(t.drop_first()));
    assert(normalize_crlf(t) =~= t);
    let line = ls[l as int];
    assert(no_newline(line));
    assert(clamp_col(line, 0) == 0);
    let x = line.subrange(0, 0) + normalize_crlf(t) + line.subrange(0, line.len() as int);
    assert(x =~= t + line);
    assert(no_newline(t + line)) by {
        assert forall|i: int| 0 <= i < (t + line).len() implies (t + line)[i] != '\n' by {
            if i > 0 {
                assert((t + line)[i] == line[i - 1]);
            }
        }
    }
    lemma_split_single(t + line);
    let r = ls.update(l as int, t + line);
    assert(insert_spec(ls, Position { line: l, col: 0 }, t) =~= r);
    assert forall|i: int| 0 <= i < r.len() implies no_newline(#[trigger] r[i]) by {
        if i != l {
            assert(r[i] == ls[i]);
        }
    }
}

proof fn lemma_delete_tab(ls: Seq<Seq<char>>, l: usize)
    requires
        wf_lines(ls),
        l < ls.len(),
        ls[l as int].len() > 0,
        ls[l as int][0] == '\t',
    ensures
        delete_spec(ls, Position { line: l, col: 0 }, Position { line: l, col: 1 })
            == ls.update(l as int, ls[l as int].drop_first()),
        deleted_spec(ls, Position { line: l, col: 0 }, Position { line: l, col: 1 })
            == seq!['\t'],
        wf_lines(ls.update(l as int, ls[l as int].drop_first())),
{
    let line = ls[l as int];
    assert(no_newline(line));
    assert(clamp_col(line, 0) == 0);
    assert(clamp_col(line, 1) == 1);
    assert(line.subrange(0, 0) + line.subrange(1, line.len() as int) =~= line.drop_first());
    let r = ls.update(l as int, line.drop_first());
    assert(delete_spec(ls, Position { line: l, col: 0 }, Position { line: l, col: 1 }) =~= r);
    assert(line.subrange(0, 1) =~= seq!['\t']);
    assert forall|i: int| 0 <= i < r.len() implies no_newline(#[trigger] r[i]) by {
        if i != l {
            assert(r[i] == ls[i]);
        } else {
            assert forall|j: int| 0 <= j < r[i].len() implies r[i][j] != '\n' by {
                assert(r[i][j] == line[j + 1]);
            }
        }
    }
}


proof fn lemma_replace_char(ls: Seq<Seq<char>>, l: usize, c: usize, x: char)
    requires
        wf_lines(ls),
        l < ls.len(),
        c < ls[l as int].len(),
        c + 1 <= usize::MAX,
        x != '\n',
    ensures
        insert_spec(
            delete_spec(ls, Position { line: l, col: c }, Position { line: l, col: (c + 1) as usize }),
            Position { line: l, col: c },
            seq![x],
        ) == replace_char(ls, l as int, c as int, x),
        deleted_spec(ls, Position { line: l, col: c }, Position { line: l, col: (c + 1) as usize })
            == seq![ls[l as int][c as int]],
        normalize_crlf(seq![ls[l as int][c as int]]) == seq![ls[l as int][c as int]],
        wf_lines(replace_char(ls, l as int, c as int, x)),
{
    let line = ls[l as int];
    let s = Position { line: l, col: c };
    let e = Position { line: l, col: (c + 1) as usize };
    assert(no_newline(line));
    assert(clamp_col(line, c) == c);
    assert(clamp_col(line, (c + 1) as usize) == c + 1);
    let rest = line.subrange(0, c as int) + line.subrange(c + 1, line.len() as int);
    let d = delete_spec(ls, s, e);
    assert(d =~= ls.update(l as int, rest));
    assert(clamp_col(rest, c) == c);
    let xs = seq![x];
    assert(no_newline(xs));
    lemma_normalize_split(xs);
    let nl = line.update(c as int, x);
    assert(rest.subrange(0, c as int) + normalize_crlf(xs) + rest.subrange(c as int, rest.len() as int) =~= nl);
    assert(no_newline(nl)) by {
        assert forall|i: int| 0 <= i < nl.len() implies nl[i] != '\n' by {
            if i != c {
                assert(nl[i] == line[i]);
            }
        }
    }
    lemma_split_single(nl);
    assert(insert_spec(d, s, xs) =~= replace_char(ls, l as int, c as int, x));
    assert(line.subrange(c as int, c + 1) =~= seq![line[c as int]]);
    let ys = seq![line[c as int]];
    assert(no_newline(ys));
    lemma_normalize_split(ys);
    let r = replace_char(ls, l as int, c as int, x);
    assert forall|i: int| 0 <= i < r.len() implies no_newline(#[trigger] r[i]) by {
        if i != l {
            assert(r[i] == ls[i]);
        }
    }
}

/// A lone line break splits into two empty pieces and fits after any
/// line but the last representable one.
proof fn lemma_line_break(p: Position)
    requires
        p.line + 1 <= usize::MAX,
    ensures
        normalize_crlf(seq!['\n']) == seq!['\n'],
        split_lines(seq!['\n']) == seq![Seq::<char>::empty(), Seq::<char>::empty()],
        insert_fits(p, seq!['\n']),
        end_pos(p, seq!['\n']) == (Position { line: (p.line + 1) as usize, col: 0 }),
{
    let nls = seq!['\n'];
    let e = Seq::<char>::empty();
    assert(nls.drop_first() =~= e);
    assert(normalize_crlf(nls.drop_first()) =~= e);
    assert(normalize_crlf(nls) =~= nls);
    let pieces = seq![e, e];
    assert(no_newline(e));
    assert(join_lines(pieces.drop_first()) == e);
    assert(join_lines(pieces) =~= nls);
    lemma_split_join(pieces);
}

/// A line break typed at the end of line `l` opens an empty line after
/// it.
proof fn lemma_open_below(ls: Seq<Seq<char>>, l: usize)
    requires
        wf_lines(ls),
        l < ls.len(),
        l + 1 <= usize::MAX,
        ls[l as int].len() <= usize::MAX,
    ensures
        insert_spec(ls, Position { line: l, col: ls[l as int].len() as usize }, seq!['\n'])
            == ls.insert(l + 1, Seq::<char>::empty()),
        insert_fits(Position { line: l, col: ls[l as int].len() as usize }, seq!['\n']),
        end_pos(Position { line: l, col: ls[l as int].len() as usize }, seq!['\n']) == (Position {
            line: (l + 1) as usize,
            col: 0,
        }),
{
    let line = ls[l as int];
    let nls = seq!['\n'];
    let e = Seq::<char>::empty();
    let p1 = Position { line: l, col: line.len() as usize };
    lemma_line_break(p1);
    assert(no_newline(line));
    assert(no_newline(e));
    assert(clamp_col(line, p1.col) == line.len());
    let pieces1 = seq![line, e];
    assert(join_lines(pieces1.drop_first()) == e);
    assert(join_lines(pieces1) =~= line + nls);
    lemma_split_join(pieces1);
    assert(line.subrange(0, line.len() as int) + normalize_crlf(nls) + line.subrange(
        line.len() as int,
        line.len() as int,
    ) =~= line + nls);
    assert(insert_spec(ls, p1, nls) =~= ls.insert(l + 1, e));
}

/// A line break typed at the start of line `l` opens an empty line before
/// it.
proof fn lemma_open_above(ls: Seq<Seq<char>>, l: usize)
    requires
        wf_lines(ls),
        l < ls.len(),
        l + 1 <= usize::MAX,
    ensures
        insert_spec(ls, Position { line: l, col: 0 }, seq!['\n']) == ls.insert(
            l as int,
            Seq::<char>::empty(),
        ),
        insert_fits(Position { line: l, col: 0 }, seq!['\n']),
{
    let line = ls[l as int];
    let nls = seq!['\n'];
    let e = Seq::<char>::empty();
    let p0 = Position { line: l, col: 0 };
    lemma_line_break(p0);
    assert(no_newline(line));
    assert(no_newline(e));
    assert(clamp_col(line, 0) == 0);
    let pieces0 = seq![e, line];
    assert(join_lines(pieces0.drop_first()) == line);
    assert(join_lines(pieces0) =~= nls + line);
    lemma_split_join(pieces0);
    assert(line.subrange(0, 0) + normalize_crlf(nls) + line.subrange(0, line.len() as int) =~= nls + line);
    assert(insert_spec(ls, p0, nls) =~= ls.insert(l as int, e));
}

fn toggle_char(c: char) -> (r: char)
    ensures
        r == toggled_case(c),
{
    let v = c as u32;
    if 0x61 <= v && v <= 0x7A {
        match char_from_u32(v - 32) {
            Some(k) => k,
            None => c,
        }
    } else if 0x41 <= v && v <= 0x5A {
        match char_from_u32(v + 32) {
            Some(k) => k,
            None => c,
        }
    } else {
        c
    }
}

impl EditorState {
    /// Swaps the ASCII letter case of the character under the cursor and
    /// moves one character right; a character without case is only passed
    /// over. At or past the end of a line nothing happens.
    pub fn toggle_case(&mut self)
        ensures
            case_toggled(*old(self), *final(self)),
            old(self).history_ok() ==> final(self).history_ok(),
            old(self).wf() ==> final(self).wf(),
    {
        self.buffer.check_wf();
        let ghost ls = self.buffer@;
        let h = self.selection.head;
        let len = self.len_or0(h.line);
        if h.col < len {
            let lc = to_chars(self.buffer.line(h.line).unwrap());
            let c = lc[h.col];
            let t = toggle_char(c);
            let next = Position::new(h.line, h.col + 1);
            if t != c {
                proof {
                    assert(no_newline(ls[h.line as int]));
                    assert(c != '\n');
                    assert(t != '\n');
                    lemma_replace_char(ls, h.line, h.col, t);
                    lemma_split_single(seq![t]);
                }
                self.selection = Selection::new(h, next);
                let s = char_string(t);
                self.insert_at_cursor(s.as_str());
            } else {
                self.selection = Selection::cursor(next);
                proof {
                    assert(lc@ == ls[h.line as int]);
                    assert(ls[h.line as int].update(h.col as int, c) =~= ls[h.line as int]);
                    assert(replace_char(ls, h.line as int, h.col as int, c) =~= ls);
                }
            }
        }
    }

    /// Puts a tab in front of every line the selection touches (the
    /// cursor's line for an empty selection), as one undoable change. The
    /// selection is kept.
    pub fn indent_selection(&mut self)
        ensures
            indented(*old(self), *final(self)),
            old(self).history_ok() ==> final(self).history_ok(),
            old(self).wf() ==> final(self).wf(),
    {
        self.buffer.check_wf();
        let ghost l0 = self.buffer@;
        let ghost c0 = l0.len() as int;
        let (s, e) = self.selection.sorted();
        let count = self.buffer.line_count();
        if s.line >= count {
            proof {
                assert(indent_spec(l0, s.line as int, e.line as int) =~= l0);
            }
            return;
        }
        let last = if e.line < count {
            e.line
        } else {
            count - 1
        };
        let tab = "\t";
        proof {
            reveal_strlit("\t");
            assert(no_newline(tab@));
            lemma_split_single(tab@);
            lemma_normalize_split(tab@);
        }
        let mut txn = Transaction::new();
        let mut l = s.line;
        while l <= last
            invariant
                s.line <= l <= last + 1,
                last < count,
                count == l0.len(),
                l0 == old(self).buffer@,
                c0 == l0.len(),
                tab@ == seq!['\t'],
                split_lines(tab@).len() == 1,
                wf_lines(self.buffer@),
                self.buffer@ == indent_spec(l0, s.line as int, l - 1),
                txn_revertible(l0, txn@),
                apply_ops(l0, txn@) == self.buffer@,
                num_apply_ok(c0, txn@),
                num_apply(c0, txn@) == c0,
                txn@.len() == l - s.line,
                self.selection == old(self).selection,
                self.dirty == old(self).dirty,
                self.yank_buffer == old(self).yank_buffer,
                self.undo_manager == old(self).undo_manager,
                same_settings(*old(self), *self),
            decreases last + 1 - l,
        {
            let p = Position::new(l, 0);
            let ghost b = self.buffer@;
            let op = EditOp::Insert { pos: p, text: String::from_str(tab) };
            proof {
                lemma_insert_tab(b, l);
                assert(b[l as int] == l0[l as int]);
                assert(b.update(l as int, seq!['\t'] + b[l as int]) =~= indent_spec(l0, s.line as int, l as int));
                assert(op_revertible(b, op));
                lemma_txn_push(l0, txn@, op);
                lemma_num_push(c0, txn@, op);
            }
            self.buffer.insert(p, tab);
            txn.push(op);
            l = l + 1;
        }
        proof {
            assert(indent_spec(l0, s.line as int, last as int) =~= indent_spec(l0, s.line as int, e.line as int));
            let r = indent_spec(l0, s.line as int, last as int);
            assert(r.len() == l0.len());
            assert forall|i: int| 0 <= i < l0.len() implies #[trigger] r[i].len() >= l0[i].len() by {}
            let sel = self.selection;
            assert(r[sel.anchor.line as int].len() >= l0[sel.anchor.line as int].len() || sel.anchor.line >= l0.len());
            assert(r[sel.head.line as int].len() >= l0[sel.head.line as int].len() || sel.head.line >= l0.len());
            lemma_transaction_roundtrip(l0, txn@);
            if old(self).history_ok() {
                lemma_push_history(c0, c0, old(self).undo_stack(), txn@);
            }
        }
        let ghost t = txn@;
        self.push_transaction(txn);
        self.dirty = true;
        proof {
            assert(self.undo_stack().drop_last() =~= old(self).undo_stack());
            assert(self.undo_stack().last() == t);
        }
    }

    /// Removes one leading tab from every line the selection touches that
    /// has one, as one undoable change; without such a line nothing
    /// happens. The selection's ends are clamped into the shortened lines.
    pub fn unindent_selection(&mut self)
        ensures
            unindented(*old(self), *final(self)),
            old(self).history_ok() ==> final(self).history_ok(),
            old(self).wf() ==> final(self).wf(),
    {
        self.buffer.check_wf();
        let ghost l0 = self.buffer@;
        let ghost c0 = l0.len() as int;
        let (s, e) = self.selection.sorted();
        let count = self.buffer.line_count();
        if s.line >= count {
            proof {
                assert(unindent_spec(l0, s.line as int, e.line as int) =~= l0);
            }
            return;
        }
        let last = if e.line < count {
            e.line
        } else {
            count - 1
        };
        let ghost tab = seq!['\t'];
        proof {
            assert(no_newline(tab));
            lemma_split_single(tab);
            lemma_normalize_split(tab);
        }
        let mut txn = Transaction::new();
        let mut l = s.line;
        while l <= last
            invariant
                s.line <= l <= last + 1,
                last < count,
                count == l0.len(),
                l0 == old(self).buffer@,
                c0 == l0.len(),
                tab == seq!['\t'],
                split_lines(tab).len() == 1,
                normalize_crlf(tab) == tab,
                wf_lines(self.buffer@),
                self.buffer@ == unindent_spec(l0, s.line as int, l - 1),
                txn_revertible(l0, txn@),
                apply_ops(l0, txn@) == self.buffer@,
                num_apply_ok(c0, txn@),
                num_apply(c0, txn@) == c0,
                txn@.len() > 0 <==> any_tab_line(l0, s.line as int, l - 1),
                txn@.len() == 0 ==> self.buffer == old(self).buffer,
                self.selection == old(self).selection,
                self.dirty == old(self).dirty,
                self.yank_buffer == old(self).yank_buffer,
                self.undo_manager == old(self).undo_manager,
                same_settings(*old(self), *self),
            decreases last + 1 - l,
        {
            let ghost b = self.buffer@;
            let lc = to_chars(self.buffer.line(l).unwrap());
            proof {
                assert(b[l as int] == l0[l as int]);
            }
            if lc.len() > 0 && lc[0] == '\t' {
                let p = Position::new(l, 0);
                let q = Position::new(l, 1);
                let d = self.buffer.delete_range(p, q);
                let op = EditOp::Delete { pos: p, text: d };
                proof {
                    lemma_delete_tab(b, l);
                    assert(b.update(l as int, b[l as int].drop_first()) =~= unindent_spec(
                        l0,
                        s.line as int,
                        l as int,
                    ));
                    assert(end_pos(p, d@) == q);
                    assert(op_revertible(b, op));
                    lemma_txn_push(l0, txn@, op);
                    lemma_num_push(c0, txn@, op);
                    assert(l0[l as int].len() > 0 && l0[l as int][0] == '\t');
                }
                txn.push(op);
            } else {
                proof {
                    assert(b =~= unindent_spec(l0, s.line as int, l as int));
                    if any_tab_line(l0, s.line as int, l as int) {
                        let j = choose|j: int|
                            s.line <= j <= l && 0 <= j < l0.len() && #[trigger] l0[j].len() > 0
                                && l0[j][0] == '\t';
                        assert(j != l);
                        assert(any_tab_line(l0, s.line as int, l - 1));
                    }
                }
            }
            l = l + 1;
        }
        proof {
            assert(unindent_spec(l0, s.line as int, last as int) =~= unindent_spec(
                l0,
                s.line as int,
                e.line as int,
            ));
            if any_tab_line(l0, s.line as int, e.line as int) {
                let j = choose|j: int|
                    s.line <= j <= e.line && 0 <= j < l0.len() && #[trigger] l0[j].len() > 0
                        && l0[j][0] == '\t';
                assert(any_tab_line(l0, s.line as int, last as int));
            } else {
                if any_tab_line(l0, s.line as int, last as int) {
                    let j = choose|j: int|
                        s.line <= j <= last && 0 <= j < l0.len() && #[trigger] l0[j].len() > 0
                            && l0[j][0] == '\t';
                    assert(false);
                }
            }
        }
        if !txn.is_empty() {
            proof {
                lemma_transaction_roundtrip(l0, txn@);
                if old(self).history_ok() {
                    lemma_push_history(c0, c0, old(self).undo_stack(), txn@);
                }
            }
            let ghost t = txn@;
            self.push_transaction(txn);
            self.dirty = true;
            let anchor = self.clamp_position(self.selection.anchor);
            let head = self.clamp_position(self.selection.head);
            self.selection = Selection::new(anchor, head);
            proof {
                assert(self.undo_stack().drop_last() =~= old(self).undo_stack());
                assert(self.undo_stack().last() == t);
            }
        }
    }

    /// Opens an empty line below the cursor's line (clamped to the last
    /// line) and starts inserting on it.
    pub fn open_line_below(&mut self)
        ensures
            opened_below(*old(self), *final(self)),
            old(self).history_ok() ==> final(self).history_ok(),
            old(self).wf() ==> final(self).wf(),
    {
        self.buffer.check_wf();
        let ghost ls = self.buffer@;
        let count = self.buffer.line_count();
        let h = self.selection.head;
        let l = if h.line <= count - 1 {
            h.line
        } else {
            count - 1
        };
        let len = self.len_or0(l);
        self.selection = Selection::cursor(Position::new(l, len));
        let nl = "\n";
        proof {
            reveal_strlit("\n");
            lemma_open_below(ls, l);
            assert(nl@ =~= seq!['\n']);
        }
        self.insert_at_cursor(nl);
        proof {
            assert(self.undo_stack().drop_last() =~= old(self).undo_stack());
        }
        self.mode = EditorMode::Insert;
    }

    /// Opens an empty line above the cursor's line (clamped to the last
    /// line) and starts inserting on it.
    pub fn open_line_above(&mut self)
        ensures
            opened_above(*old(self), *final(self)),
            old(self).history_ok() ==> final(self).history_ok(),
            old(self).wf() ==> final(self).wf(),
    {
        self.buffer.check_wf();
        let ghost ls = self.buffer@;
        let count = self.buffer.line_count();
        let h = self.selection.head;
        let l = if h.line <= count - 1 {
            h.line
        } else {
            count - 1
        };
        let start = Position::new(l, 0);
        self.selection = Selection::cursor(start);
        let nl = "\n";
        proof {
            reveal_strlit("\n");
            lemma_open_above(ls, l);
            assert(nl@ =~= seq!['\n']);
        }
        self.insert_at_cursor(nl);
        proof {
            assert(self.undo_stack().drop_last() =~= old(self).undo_stack());
        }
        self.selection = Selection::cursor(start);
        self.mode = EditorMode::Insert;
    }
}

} // verus!
