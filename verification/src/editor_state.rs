use vstd::prelude::*;
use crate::buffer::{
    LineBuffer, pos_valid, wf_lines, clamp_col, delete_spec, deleted_spec, insert_spec, end_pos, insert_fits,
    unapply_ops, apply_ops, apply_upto, txn_revertible, op_revertible, ordered,
    lemma_transaction_roundtrip, lemma_deleted_facts, lemma_delete_wf, lemma_insert_wf,
    lemma_delete_then_insert, lemma_insert_then_delete,
};
use crate::history::{
    undo_shape_ok, redo_shape_ok, num_apply_ok, num_apply, num_apply_upto, num_apply_op,
    num_unapply, nl_count, lemma_num_undo_after_redo, lemma_num_redo_after_undo, lemma_num_unapply,
    lemma_num_apply,
};
use crate::text::{normalize_crlf, split_lines, lemma_split_len, lemma_split_single, to_chars, char_string, no_newline};
use crate::search::{first_from, last_upto, find_from, rfind_upto};
use crate::position::{Position, pos_le};
use crate::selection::{Selection, sorted_spec};
use crate::skk::{SkkEngine, SkkState, engine_clear, builtin_dict};
use crate::undo::{EditOp, Transaction, UndoManager};
use crate::placement::{lemma_steps_valid, lemma_clamp_valid, lemma_delete_valid, lemma_first_from_bound, lemma_last_upto_bound};

verus! {

/// The editor's input mode.
#[derive(Debug, Clone, Copy, PartialEq, Eq, Structural)]
pub enum EditorMode {
    Normal,
    Insert,
    Command,
    Search,
}

/// Everything the editor knows about the text being edited.
pub struct EditorState {
    pub buffer: LineBuffer,
    pub selection: Selection,
    pub mode: EditorMode,
    pub message: Option<String>,
    pub dirty: bool,
    pub file_path: Option<String>,
    pub command_buffer: String,
    pub yank_buffer: String,
    pub search_query: String,
    pub skk_engine: SkkEngine,
    pub skk_enabled: bool,
    pub undo_manager: UndoManager,
}

/// The number of characters of line `l`, or 0 if it does not exist.
pub open spec fn line_len_or0(ls: Seq<Seq<char>>, l: usize) -> int {
    if l < ls.len() {
        ls[l as int].len() as int
    } else {
        0
    }
}

pub open spec fn min_usize(a: usize, b: int) -> usize {
    if a <= b {
        a
    } else {
        b as usize
    }
}

/// `p` moved onto the nearest existing line and within that line.
pub open spec fn clamp_spec(ls: Seq<Seq<char>>, p: Position) -> Position {
    let line = min_usize(p.line, ls.len() - 1);
    Position { line, col: min_usize(p.col, line_len_or0(ls, line)) }
}

/// The head one character to the left, onto the end of the previous line
/// at a line start.
pub open spec fn left_of(ls: Seq<Seq<char>>, h: Position) -> Position {
    if h.col > 0 {
        Position { line: h.line, col: (h.col - 1) as usize }
    } else if h.line > 0 {
        Position { line: (h.line - 1) as usize, col: line_len_or0(ls, (h.line - 1) as usize) as usize }
    } else {
        h
    }
}

/// The head one character to the right, onto the start of the next line at
/// a line end.
pub open spec fn right_of(ls: Seq<Seq<char>>, h: Position) -> Position {
    if h.col < line_len_or0(ls, h.line) {
        Position { line: h.line, col: (h.col + 1) as usize }
    } else if h.line + 1 < ls.len() {
        Position { line: (h.line + 1) as usize, col: 0 }
    } else {
        h
    }
}

/// The head one line up, its column clamped to that line.
pub open spec fn above(ls: Seq<Seq<char>>, h: Position) -> Position {
    if h.line > 0 {
        Position {
            line: (h.line - 1) as usize,
            col: min_usize(h.col, line_len_or0(ls, (h.line - 1) as usize)),
        }
    } else {
        h
    }
}

/// The head one line down, its column clamped to that line.
pub open spec fn below(ls: Seq<Seq<char>>, h: Position) -> Position {
    if h.line + 1 < ls.len() {
        Position {
            line: (h.line + 1) as usize,
            col: min_usize(h.col, line_len_or0(ls, (h.line + 1) as usize)),
        }
    } else {
        h
    }
}

/// `b` differs from `a` at most in the selection.
pub open spec fn same_but_selection(a: EditorState, b: EditorState) -> bool {
    &&& a.buffer == b.buffer
    &&& a.dirty == b.dirty
    &&& a.yank_buffer == b.yank_buffer
    &&& a.undo_manager == b.undo_manager
    &&& same_settings(a, b)
}

/// `b` is `a` with the cursor moved to `p`: the selection collapses there,
/// unless `p` is where the head already is, in which case nothing changes.
pub open spec fn cursor_stepped(a: EditorState, b: EditorState, p: Position) -> bool {
    &&& b.selection == (if a.selection.head == p {
        a.selection
    } else {
        Selection::cursor_spec(p)
    })
    &&& same_but_selection(a, b)
}

/// The mode, message, file, command line, search query and kana engine
/// are the same.
pub open spec fn same_settings(a: EditorState, b: EditorState) -> bool {
    &&& a.mode == b.mode
    &&& a.message == b.message
    &&& a.file_path == b.file_path
    &&& a.command_buffer == b.command_buffer
    &&& a.search_query == b.search_query
    &&& a.skk_engine == b.skk_engine
    &&& a.skk_enabled == b.skk_enabled
}


/// The transaction `t` records deleting the text `r` that started at `s`.
pub open spec fn records_delete(t: Seq<EditOp>, s: Position, r: Seq<char>) -> bool {
    &&& t.len() == 1
    &&& (t[0] matches EditOp::Delete { pos, text } && pos == s && text@ == r)
}

/// `b` is `a` after deleting the text from `s` to `e` (`s` first), which is
/// returned as `r`: the cursor lands on `s`, the text goes to the yank
/// buffer, and a non-empty deletion is recorded for undo.
pub open spec fn range_deleted(a: EditorState, b: EditorState, s: Position, e: Position, r: Seq<char>) -> bool {
    &&& b.buffer@ == delete_spec(a.buffer@, s, e)
    &&& r == deleted_spec(a.buffer@, s, e)
    &&& b.selection == Selection::cursor_spec(s)
    &&& b.yank_buffer@ == r
    &&& same_settings(a, b)
    &&& r.len() == 0 ==> b.dirty == a.dirty && b.undo_stack() == a.undo_stack() && b.redo_stack()
        == a.redo_stack()
    &&& r.len() > 0 ==> b.dirty && b.redo_stack().len() == 0 && b.undo_stack().len() == a.undo_stack().len() + 1
        && b.undo_stack().drop_last() == a.undo_stack() && records_delete(b.undo_stack().last(), s, r)
    &&& r.len() > 0 && pos_valid(a.buffer@, s) && pos_valid(a.buffer@, e) && normalize_crlf(r) == r
        ==> apply_ops(a.buffer@, b.undo_stack().last()) == b.buffer@ && unapply_ops(
        b.buffer@,
        b.undo_stack().last(),
    ) == a.buffer@
}

/// Where typed text goes: the cursor, or the start of a non-empty
/// selection (which the text replaces).
pub open spec fn insert_target(sel: Selection) -> Position {
    if sel.anchor == sel.head {
        sel.head
    } else {
        sorted_spec(sel).0
    }
}

/// The lines once the selection (if any) has been removed.
pub open spec fn without_selection(ls: Seq<Seq<char>>, sel: Selection) -> Seq<Seq<char>> {
    if sel.anchor == sel.head {
        ls
    } else {
        delete_spec(ls, sorted_spec(sel).0, sorted_spec(sel).1)
    }
}

/// The transaction `t` records replacing the selection `sel` of the lines
/// `ls` by `text`: the deletion of the selected text (if any), then the
/// insertion.
pub open spec fn records_insert(t: Seq<EditOp>, ls: Seq<Seq<char>>, sel: Selection, text: Seq<char>) -> bool {
    let p = insert_target(sel);
    &&& t.len() == (if sel.anchor == sel.head { 1int } else { 2int })
    &&& (t.last() matches EditOp::Insert { pos, text: tx } && pos == p && tx@ == text)
    &&& sel.anchor != sel.head ==> (t[0] matches EditOp::Delete { pos, text: tx } && pos == p
        && tx@ == deleted_spec(ls, sorted_spec(sel).0, sorted_spec(sel).1))
}

/// The top of a non-empty undo stack can be reverted by line counts.
pub open spec fn num_unapply_ok_top(c: int, us: Seq<Seq<EditOp>>) -> bool {
    us.len() > 0 ==> crate::history::num_unapply_ok(c, us.last())
}

/// Pushing a transaction whose effect on the line count is as counted keeps
/// the undo history sound.
pub(crate) proof fn lemma_push_history(c0: int, c1: int, us: Seq<Seq<EditOp>>, t: Seq<EditOp>)
    requires
        undo_shape_ok(c0, us),
        num_apply_ok(c0, t),
        c1 == num_apply(c0, t),
    ensures
        undo_shape_ok(c1, us.push(t)),
{
    lemma_num_undo_after_redo(c0, t);
    assert(us.push(t).drop_last() =~= us);
}


/// The first match of `q` that starts on a line from `l` on, at its first
/// occurrence in that line.
pub open spec fn match_below(ls: Seq<Seq<char>>, q: Seq<char>, l: int) -> Option<Position>
    decreases ls.len() - l,
{
    if l < 0 || l >= ls.len() {
        None
    } else {
        match first_from(ls[l], q, 0) {
            Some(c) => Some(Position { line: l as usize, col: c as usize }),
            None => match_below(ls, q, l + 1),
        }
    }
}

/// Where a forward search for `q` from `h` lands: the first occurrence at
/// or after the cursor on its line, else the first occurrence on a later
/// line. Columns count characters (Unicode scalar values), as cursor
/// positions do everywhere in the editor, never bytes.
pub open spec fn search_forward_spec(ls: Seq<Seq<char>>, h: Position, q: Seq<char>) -> Option<Position> {
    if q.len() == 0 {
        None
    } else if h.line < ls.len() && first_from(ls[h.line as int], q, h.col as int) is Some {
        Some(Position { line: h.line, col: first_from(ls[h.line as int], q, h.col as int)->0 as usize })
    } else {
        match_below(ls, q, h.line + 1)
    }
}

/// The last match of `q` on the nearest line before line `l` that has one.
pub open spec fn match_above(ls: Seq<Seq<char>>, q: Seq<char>, l: int) -> Option<Position>
    decreases l,
{
    if l <= 0 {
        None
    } else if l - 1 < ls.len() && last_upto(ls[l - 1], q, ls[l - 1].len() - q.len()) is Some {
        Some(Position { line: (l - 1) as usize, col: last_upto(ls[l - 1], q, ls[l - 1].len() - q.len())->0 as usize })
    } else {
        match_above(ls, q, l - 1)
    }
}

/// Where a backward search for `q` from `h` lands: the last occurrence
/// that ends at or before the cursor on its line, else the last occurrence
/// on the nearest earlier line that has one. Columns count characters,
/// never bytes, so lines with non-ASCII text are searched by character.
pub open spec fn search_backward_spec(ls: Seq<Seq<char>>, h: Position, q: Seq<char>) -> Option<Position> {
    if q.len() == 0 {
        None
    } else if h.line < ls.len() && last_upto(ls[h.line as int], q, h.col - q.len()) is Some {
        Some(Position { line: h.line, col: last_upto(ls[h.line as int], q, h.col - q.len())->0 as usize })
    } else {
        match_above(ls, q, h.line as int)
    }
}

/// The cursor sits within its line, if that line exists.
pub open spec fn head_col_ok(ls: Seq<Seq<char>>, h: Position) -> bool {
    h.line < ls.len() ==> h.col <= ls[h.line as int].len()
}


/// `b` is `a` after typing `text`, which replaced the selection if there
/// was one; `r` is where the cursor ends. One undoable change is recorded,
/// which undo reverts exactly when the positions were valid and any
/// replaced text held no `"\r\n"`.
pub open spec fn typed(a: EditorState, b: EditorState, text: Seq<char>, r: Position) -> bool {
    let l1 = without_selection(a.buffer@, a.selection);
    let p = insert_target(a.selection);
    let (s, e) = sorted_spec(a.selection);
    let d = deleted_spec(a.buffer@, s, e);
    &&& b.buffer@ == insert_spec(l1, p, text)
    &&& r == (if p.line < l1.len() {
        end_pos(p, text)
    } else {
        p
    })
    &&& b.selection == Selection::cursor_spec(r)
    &&& b.dirty
    &&& b.yank_buffer == a.yank_buffer
    &&& same_settings(a, b)
    &&& b.redo_stack().len() == 0
    &&& b.undo_stack().len() == a.undo_stack().len() + 1
    &&& b.undo_stack().drop_last() == a.undo_stack()
    &&& records_insert(b.undo_stack().last(), a.buffer@, a.selection, text)
    &&& pos_valid(a.buffer@, s) && pos_valid(a.buffer@, e) && (a.selection.anchor == a.selection.head
        || normalize_crlf(d) == d) ==> apply_ops(a.buffer@, b.undo_stack().last()) == b.buffer@
        && unapply_ops(b.buffer@, b.undo_stack().last()) == a.buffer@
}

/// `b` is `a` after deleting the character under the cursor; at the end
/// of a line (not the last) the next line is joined on.
pub open spec fn char_deleted(a: EditorState, b: EditorState) -> bool {
    let h = a.selection.head;
    let ls = a.buffer@;
    if h.col < line_len_or0(ls, h.line) {
        let e = Position { line: h.line, col: (h.col + 1) as usize };
        range_deleted(a, b, h, e, deleted_spec(ls, h, e))
    } else if h.line + 1 < ls.len() {
        let e = Position { line: (h.line + 1) as usize, col: 0 };
        range_deleted(a, b, h, e, deleted_spec(ls, h, e))
    } else {
        b == a
    }
}

/// `b` is `a` after copying the selected text `r` into the yank buffer:
/// the text is taken out and put back at its start (which restores it
/// unless it held a `"\r\n"`), and the selection runs from its start to
/// its end. An empty selection copies nothing.
pub open spec fn yanked(a: EditorState, b: EditorState, r: Seq<char>) -> bool {
    let (s, e) = sorted_spec(a.selection);
    let d = deleted_spec(a.buffer@, s, e);
    if a.selection.anchor == a.selection.head {
        r.len() == 0 && b == a
    } else {
        &&& r == d
        &&& b.buffer@ == insert_spec(delete_spec(a.buffer@, s, e), s, d)
        &&& b.yank_buffer@ == d
        &&& b.selection == (Selection { anchor: s, head: e })
        &&& b.dirty == a.dirty
        &&& b.undo_stack() == a.undo_stack()
        &&& b.redo_stack() == a.redo_stack()
        &&& same_settings(a, b)
        &&& pos_valid(a.buffer@, s) && pos_valid(a.buffer@, e) && normalize_crlf(d) == d ==> b.buffer@
            == a.buffer@
    }
}

/// `s` is an editor just started: one empty line and no file, the cursor
/// at the start in normal mode, nothing typed on the command or search
/// line, nothing yanked, no message, no history, and the kana engine in
/// direct input with nothing pending and the built-in dictionary (whether
/// kana input is enabled is left to the settings).
pub open spec fn fresh_state(s: EditorState) -> bool {
    &&& s.buffer@ == seq![Seq::<char>::empty()]
    &&& s.selection == Selection::cursor_spec(Position { line: 0, col: 0 })
    &&& s.mode == EditorMode::Normal
    &&& s.message is None
    &&& !s.dirty
    &&& s.file_path is None
    &&& s.command_buffer@.len() == 0
    &&& s.yank_buffer@.len() == 0
    &&& s.search_query@.len() == 0
    &&& s.skk_engine.state == SkkState::Direct
    &&& engine_clear(s.skk_engine)
    &&& s.skk_engine.dict@ == builtin_dict()
    &&& s.skk_engine.dict.wf()
    &&& s.undo_stack().len() == 0
    &&& s.redo_stack().len() == 0
}

/// `b` is `a` after undoing: `did` tells whether there was a change to
/// undo; if so it is reverted and moved to the redo stack, and the cursor
/// stays where it was, clamped into the text.
pub open spec fn undone(a: EditorState, b: EditorState, did: bool) -> bool {
    &&& did == (a.undo_stack().len() > 0)
    &&& !did ==> b == a
    &&& did ==> {
        &&& b.buffer@ == unapply_ops(a.buffer@, a.undo_stack().last())
        &&& b.undo_stack() == a.undo_stack().drop_last()
        &&& b.redo_stack() == a.redo_stack().push(a.undo_stack().last())
        &&& b.selection == Selection::cursor_spec(clamp_spec(b.buffer@, a.selection.head))
        &&& b.dirty
        &&& b.yank_buffer == a.yank_buffer
        &&& same_settings(a, b)
    }
}

/// `b` is `a` after redoing: `did` tells whether there was a change to
/// redo; if so it is performed again and moved back to the undo stack.
pub open spec fn redone(a: EditorState, b: EditorState, did: bool) -> bool {
    &&& did == (a.redo_stack().len() > 0)
    &&& !did ==> b == a
    &&& did ==> {
        &&& b.buffer@ == apply_ops(a.buffer@, a.redo_stack().last())
        &&& b.redo_stack() == a.redo_stack().drop_last()
        &&& b.undo_stack() == a.undo_stack().push(a.redo_stack().last())
        &&& b.selection == Selection::cursor_spec(clamp_spec(b.buffer@, a.selection.head))
        &&& b.dirty
        &&& b.yank_buffer == a.yank_buffer
        &&& same_settings(a, b)
    }
}

/// A blank between words.
pub open spec fn is_blank(c: char) -> bool {
    c == ' ' || c == '\t'
}

/// The first index from `c` on that holds a blank (or the line's end).
pub open spec fn skip_word(line: Seq<char>, c: int) -> int
    decreases line.len() - c,
{
    if c >= line.len() || c < 0 {
        c
    } else if is_blank(line[c]) {
        c
    } else {
        skip_word(line, c + 1)
    }
}

/// The first index from `c` on that holds no blank (or the line's end).
pub open spec fn skip_blanks(line: Seq<char>, c: int) -> int
    decreases line.len() - c,
{
    if c >= line.len() || c < 0 {
        c
    } else if !is_blank(line[c]) {
        c
    } else {
        skip_blanks(line, c + 1)
    }
}

/// The last index at or before `c` that holds a blank (or 0).
pub open spec fn back_word(line: Seq<char>, c: int) -> int
    decreases c,
{
    if c <= 0 {
        0
    } else if is_blank(line[c]) {
        c
    } else {
        back_word(line, c - 1)
    }
}

/// Where moving one word forward from `h` lands: past the rest of the
/// current word and the blanks after it; from a line's end, the start of
/// the next line.
pub open spec fn word_forward(ls: Seq<Seq<char>>, h: Position) -> Position {
    if h.line >= ls.len() {
        h
    } else {
        let line = ls[h.line as int];
        let c = skip_blanks(line, skip_word(line, h.col as int));
        if c >= line.len() && h.line + 1 < ls.len() {
            Position { line: (h.line + 1) as usize, col: 0 }
        } else {
            Position { line: h.line, col: c as usize }
        }
    }
}

/// Where moving one word backward from `h` lands: back over the word
/// before the cursor onto the blank in front of it (or the line start);
/// from a line start, the end of the previous line.
pub open spec fn word_backward(ls: Seq<Seq<char>>, h: Position) -> Position {
    if h.line >= ls.len() {
        h
    } else {
        let line = ls[h.line as int];
        let c0 = min_usize(h.col, line.len() as int);
        if c0 == 0 {
            if h.line > 0 {
                Position { line: (h.line - 1) as usize, col: ls[h.line - 1].len() as usize }
            } else {
                Position { line: h.line, col: 0 }
            }
        } else {
            Position { line: h.line, col: back_word(line, c0 - 1) as usize }
        }
    }
}

/// A character with its ASCII letter case swapped.
pub open spec fn toggled_case(c: char) -> char {
    if 0x61 <= (c as u32) <= 0x7A {
        ((c as u32) - 32) as char
    } else if 0x41 <= (c as u32) <= 0x5A {
        ((c as u32) + 32) as char
    } else {
        c
    }
}

/// Lines `a..=b` (those that exist) with a tab put in front.
pub open spec fn indent_spec(ls: Seq<Seq<char>>, a: int, b: int) -> Seq<Seq<char>> {
    Seq::new(ls.len(), |i: int| if a <= i <= b { seq!['\t'] + ls[i] } else { ls[i] })
}

/// Lines `a..=b` (those that exist) without their leading tab, if any.
pub open spec fn unindent_spec(ls: Seq<Seq<char>>, a: int, b: int) -> Seq<Seq<char>> {
    Seq::new(
        ls.len(),
        |i: int|
            if a <= i <= b && ls[i].len() > 0 && ls[i][0] == '\t' {
                ls[i].drop_first()
            } else {
                ls[i]
            },
    )
}

/// The bracket that closes `c`, if `c` opens one.
pub open spec fn closer_of(c: char) -> Option<char> {
    if c == '(' {
        Some(')')
    } else if c == '[' {
        Some(']')
    } else if c == '{' {
        Some('}')
    } else {
        None
    }
}

/// The bracket that opens `c`, if `c` closes one.
pub open spec fn opener_of(c: char) -> Option<char> {
    if c == ')' {
        Some('(')
    } else if c == ']' {
        Some('[')
    } else if c == '}' {
        Some('{')
    } else {
        None
    }
}

/// Scanning right from `j` with `depth` brackets open, the index where the
/// depth falls to zero.
pub open spec fn match_right(line: Seq<char>, o: char, k: char, j: int, depth: int) -> Option<int>
    decreases line.len() - j,
{
    if j < 0 || j >= line.len() {
        None
    } else {
        let d = if line[j] == o {
            depth + 1
        } else if line[j] == k {
            depth - 1
        } else {
            depth
        };
        if d == 0 {
            Some(j)
        } else {
            match_right(line, o, k, j + 1, d)
        }
    }
}

/// Scanning left from `j` with `depth` brackets open, the index where the
/// depth falls to zero.
pub open spec fn match_left(line: Seq<char>, o: char, k: char, j: int, depth: int) -> Option<int>
    decreases j + 1,
{
    if j < 0 || j >= line.len() {
        None
    } else {
        let d = if line[j] == k {
            depth + 1
        } else if line[j] == o {
            depth - 1
        } else {
            depth
        };
        if d == 0 {
            Some(j)
        } else {
            match_left(line, o, k, j - 1, d)
        }
    }
}

/// The column of the bracket matching the one under the cursor, on the
/// cursor's line.
pub open spec fn matching_col(ls: Seq<Seq<char>>, h: Position) -> Option<int> {
    if h.line >= ls.len() || h.col >= ls[h.line as int].len() {
        None
    } else {
        let line = ls[h.line as int];
        let c = line[h.col as int];
        match closer_of(c) {
            Some(k) => match_right(line, c, k, h.col + 1, 1),
            None => match opener_of(c) {
                Some(o) => match_left(line, o, c, h.col - 1, 1),
                None => None,
            },
        }
    }
}

pub open spec fn sat_sub(a: usize, b: usize) -> usize {
    if a >= b {
        (a - b) as usize
    } else {
        0
    }
}

pub open spec fn sat_add(a: usize, b: usize) -> usize {
    if a + b <= usize::MAX {
        (a + b) as usize
    } else {
        usize::MAX
    }
}

impl EditorState {
    /// The transactions that can be undone, oldest first.
    pub open spec fn undo_stack(&self) -> Seq<Seq<EditOp>> {
        self.undo_manager.undo_seq()
    }

    /// The transactions that can be redone, the next one last.
    pub open spec fn redo_stack(&self) -> Seq<Seq<EditOp>> {
        self.undo_manager.redo_seq()
    }

    /// Undoing and redoing every recorded transaction touches only lines
    /// that exist at that point.
    pub open spec fn history_ok(&self) -> bool {
        &&& undo_shape_ok(self.buffer@.len() as int, self.undo_stack())
        &&& redo_shape_ok(self.buffer@.len() as int, self.redo_stack())
    }

    /// The state kept between commands: both ends of the selection lie
    /// within the text, and every recorded change can be undone and redone.
    pub open spec fn wf(&self) -> bool {
        &&& self.history_ok()
        &&& pos_valid(self.buffer@, self.selection.anchor)
        &&& pos_valid(self.buffer@, self.selection.head)
    }

    /// Both ends of the selection lie on existing lines.
    pub open spec fn selection_lines_ok(&self) -> bool {
        self.selection.anchor.line < self.buffer@.len() && self.selection.head.line
            < self.buffer@.len()
    }

    /// A fresh editor: an empty unnamed buffer, the cursor at the start, in
    /// normal mode.
    pub fn new() -> (s: Self)
        ensures
            fresh_state(s),
            s.buffer@ == seq![Seq::<char>::empty()],
            s.selection == Selection::cursor_spec(Position { line: 0, col: 0 }),
            s.mode == EditorMode::Normal,
            s.message is None,
            !s.dirty,
            s.file_path is None,
            s.command_buffer@.len() == 0,
            s.yank_buffer@.len() == 0,
            s.search_query@.len() == 0,
            s.skk_engine.state == SkkState::Direct,
            engine_clear(s.skk_engine),
            s.skk_engine.dict@ == builtin_dict(),
            !s.skk_enabled,
            s.undo_stack().len() == 0,
            s.redo_stack().len() == 0,
            s.history_ok(),
            s.wf(),
    {
        Self {
            buffer: LineBuffer::new(),
            selection: Selection::cursor(Position::new(0, 0)),
            mode: EditorMode::Normal,
            message: None,
            dirty: false,
            file_path: None,
            command_buffer: String::new(),
            yank_buffer: String::new(),
            search_query: String::new(),
            skk_engine: SkkEngine::new(),
            skk_enabled: false,
            undo_manager: UndoManager::new(),
        }
    }

    pub fn can_undo(&self) -> (b: bool)
        ensures
            b == (self.undo_stack().len() > 0),
    {
        self.undo_manager.can_undo()
    }

    pub fn can_redo(&self) -> (b: bool)
        ensures
            b == (self.redo_stack().len() > 0),
    {
        self.undo_manager.can_redo()
    }

    pub fn set_mode(&mut self, mode: EditorMode)
        ensures
            *final(self) == (EditorState { mode, ..*old(self) }),
            final(self).mode == mode,
            final(self).buffer == old(self).buffer,
            final(self).selection == old(self).selection,
            final(self).dirty == old(self).dirty,
            final(self).yank_buffer == old(self).yank_buffer,
            final(self).undo_stack() == old(self).undo_stack(),
            final(self).redo_stack() == old(self).redo_stack(),
            final(self).message == old(self).message,
            final(self).file_path == old(self).file_path,
            final(self).command_buffer == old(self).command_buffer,
            final(self).search_query == old(self).search_query,
            final(self).skk_engine == old(self).skk_engine,
            final(self).skk_enabled == old(self).skk_enabled,
    {
        self.mode = mode;
    }

    /// `pos` moved onto the nearest existing line and within that line.
    pub fn clamp_position(&self, pos: Position) -> (r: Position)
        ensures
            r == clamp_spec(self.buffer@, pos),
            pos_valid(self.buffer@, r),
    {
        let count = self.buffer.line_count();
        let last = count - 1;
        let line = if pos.line <= last {
            pos.line
        } else {
            last
        };
        let len = match self.buffer.line_len(line) {
            Some(n) => n,
            None => 0,
        };
        let col = if pos.col <= len {
            pos.col
        } else {
            len
        };
        Position::new(line, col)
    }

    /// Collapses the selection onto `pos`, clamped into the text.
    pub fn move_head_to(&mut self, pos: Position)
        ensures
            final(self).selection == Selection::cursor_spec(clamp_spec(old(self).buffer@, pos)),
            same_but_selection(*old(self), *final(self)),
            old(self).wf() ==> final(self).wf(),
    {
        let clamped = self.clamp_position(pos);
        self.selection = Selection::cursor(clamped);
    }

    /// The length of line `l`, or 0 if it does not exist.
    pub(crate) fn len_or0(&self, l: usize) -> (n: usize)
        ensures
            n == line_len_or0(self.buffer@, l),
    {
        match self.buffer.line_len(l) {
            Some(n) => n,
            None => 0,
        }
    }

    pub(crate) fn left_pos(&self, h: Position) -> (r: Position)
        ensures
            r == left_of(self.buffer@, h),
    {
        if h.col > 0 {
            Position::new(h.line, h.col - 1)
        } else if h.line > 0 {
            Position::new(h.line - 1, self.len_or0(h.line - 1))
        } else {
            h
        }
    }

    pub(crate) fn right_pos(&self, h: Position) -> (r: Position)
        ensures
            r == right_of(self.buffer@, h),
    {
        let len = self.len_or0(h.line);
        let count = self.buffer.line_count();
        if h.col < len {
            Position::new(h.line, h.col + 1)
        } else if h.line < count - 1 {
            Position::new(h.line + 1, 0)
        } else {
            h
        }
    }

    pub(crate) fn up_pos(&self, h: Position) -> (r: Position)
        ensures
            r == above(self.buffer@, h),
    {
        if h.line > 0 {
            let len = self.len_or0(h.line - 1);
            let col = if h.col <= len {
                h.col
            } else {
                len
            };
            Position::new(h.line - 1, col)
        } else {
            h
        }
    }

    pub(crate) fn down_pos(&self, h: Position) -> (r: Position)
        ensures
            r == below(self.buffer@, h),
    {
        let count = self.buffer.line_count();
        if h.line < count - 1 {
            let len = self.len_or0(h.line + 1);
            let col = if h.col <= len {
                h.col
            } else {
                len
            };
            Position::new(h.line + 1, col)
        } else {
            h
        }
    }

    /// Moves the cursor one character left (collapsing the selection);
    /// at a line start it goes to the end of the previous line.
    pub fn move_cursor_left(&mut self)
        ensures
            cursor_stepped(*old(self), *final(self), left_of(old(self).buffer@, old(self).selection.head)),
            old(self).wf() ==> final(self).wf(),
    {
        self.buffer.check_wf();
        proof {
            if old(self).wf() {
                lemma_steps_valid(self.buffer@, self.selection.head);
            }
        }
        let h = self.selection.head;
        let p = self.left_pos(h);
        if p != h {
            self.selection = Selection::cursor(p);
        }
    }

    /// Moves the cursor one character right; at a line end it goes to the
    /// start of the next line.
    pub fn move_cursor_right(&mut self)
        ensures
            cursor_stepped(*old(self), *final(self), right_of(old(self).buffer@, old(self).selection.head)),
            old(self).wf() ==> final(self).wf(),
    {
        self.buffer.check_wf();
        proof {
            if old(self).wf() {
                lemma_steps_valid(self.buffer@, self.selection.head);
            }
        }
        let h = self.selection.head;
        let p = self.right_pos(h);
        if p != h {
            self.selection = Selection::cursor(p);
        }
    }

    /// Moves the cursor one line up, keeping the column where the line
    /// allows.
    pub fn move_cursor_up(&mut self)
        ensures
            final(self).selection == (if old(self).selection.head.line > 0 {
                Selection::cursor_spec(above(old(self).buffer@, old(self).selection.head))
            } else {
                old(self).selection
            }),
            same_but_selection(*old(self), *final(self)),
            old(self).wf() ==> final(self).wf(),
    {
        self.buffer.check_wf();
        proof {
            if old(self).wf() {
                lemma_steps_valid(self.buffer@, self.selection.head);
            }
        }
        let h = self.selection.head;
        if h.line > 0 {
            self.selection = Selection::cursor(self.up_pos(h));
        }
    }

    /// Moves the cursor one line down, keeping the column where the line
    /// allows.
    pub fn move_cursor_down(&mut self)
        ensures
            final(self).selection == (if old(self).selection.head.line + 1 < old(
                self,
            ).buffer@.len() {
                Selection::cursor_spec(below(old(self).buffer@, old(self).selection.head))
            } else {
                old(self).selection
            }),
            same_but_selection(*old(self), *final(self)),
            old(self).wf() ==> final(self).wf(),
    {
        self.buffer.check_wf();
        proof {
            if old(self).wf() {
                lemma_steps_valid(self.buffer@, self.selection.head);
            }
        }
        let h = self.selection.head;
        let count = self.buffer.line_count();
        if h.line < count - 1 {
            self.selection = Selection::cursor(self.down_pos(h));
        }
    }

    pub fn push_transaction(&mut self, txn: Transaction)
        requires
            txn@.len() > 0,
        ensures
            final(self).undo_stack() == old(self).undo_stack().push(txn@),
            final(self).redo_stack().len() == 0,
            final(self).buffer == old(self).buffer,
            final(self).selection == old(self).selection,
            final(self).dirty == old(self).dirty,
            final(self).yank_buffer == old(self).yank_buffer,
            same_settings(*old(self), *final(self)),
    {
        if !txn.is_empty() {
            self.undo_manager.push(txn);
        }
    }

    /// Deletes the selected text, leaving the cursor at its start, and puts
    /// it in the yank buffer; a non-empty deletion can be undone.
    pub fn delete_selection(&mut self) -> (r: String)
        requires
            old(self).selection_lines_ok(),
        ensures
            range_deleted(
                *old(self),
                *final(self),
                sorted_spec(old(self).selection).0,
                sorted_spec(old(self).selection).1,
                r@,
            ),
            old(self).history_ok() ==> final(self).history_ok(),
            old(self).wf() ==> final(self).wf(),
    {
        let ghost l0 = self.buffer@;
        let (start, end) = self.selection.sorted();
        let deleted = self.buffer.delete_range(start, end);
        self.selection = Selection::cursor(start);
        self.yank_buffer = deleted.clone();
        let ghost l1 = self.buffer@;
        proof {
            lemma_deleted_facts(l0, start, end);
            lemma_delete_wf(l0, start, end);
            if old(self).wf() {
                lemma_delete_valid(l0, start, end);
            }
        }
        if deleted.as_str().unicode_len() > 0 {
            let txn = Transaction::with_ops(vec![EditOp::Delete { pos: start, text: deleted.clone() }]);
            let ghost t = txn@;
            self.dirty = true;
            self.push_transaction(txn);
            proof {
                let op = t[0];
                assert(t.len() == 1);
                assert(num_apply_upto(l0.len() as int, t, 0) == l0.len() as int);
                assert(num_apply(l0.len() as int, t) == num_apply_op(l0.len() as int, op));
                assert(num_apply_ok(l0.len() as int, t));
                assert(self.undo_stack().drop_last() =~= old(self).undo_stack());
                if old(self).history_ok() {
                    lemma_push_history(l0.len() as int, l1.len() as int, old(self).undo_stack(), t);
                }
                if pos_valid(l0, start) && pos_valid(l0, end) && normalize_crlf(deleted@) == deleted@ {
                    assert(op_revertible(apply_upto(l0, t, 0), t[0]));
                    assert(txn_revertible(l0, t));
                    lemma_transaction_roundtrip(l0, t);
                    assert(apply_ops(l0, t) == l1);
                }
            }
        }
        deleted
    }

    /// Types `text`: it replaces the selection if there is one, and the
    /// cursor ends after it. The change can be undone as one step.
    pub fn insert_at_cursor(&mut self, text: &str) -> (r: Position)
        requires
            old(self).selection.anchor != old(self).selection.head ==> old(self).selection_lines_ok(),
            insert_target(old(self).selection).line < old(self).buffer@.len() ==> insert_fits(
                insert_target(old(self).selection),
                text@,
            ),
        ensures
            typed(*old(self), *final(self), text@, r),
            old(self).history_ok() && insert_target(old(self).selection).line < old(
                self,
            ).buffer@.len() ==> final(self).history_ok(),
            old(self).wf() ==> final(self).wf(),
    {
        self.buffer.check_wf();
        let ghost l0 = self.buffer@;
        let ghost sel0 = self.selection;
        let mut txn = Transaction::new();
        let ghost mut del_op: EditOp = arbitrary();
        if !self.selection.is_empty() {
            let (start, end) = self.selection.sorted();
            let deleted = self.buffer.delete_range(start, end);
            proof {
                lemma_deleted_facts(l0, start, end);
                lemma_delete_wf(l0, start, end);
            }
            let op = EditOp::Delete { pos: start, text: deleted };
            proof {
                del_op = op;
            }
            txn.push(op);
            self.selection = Selection::cursor(start);
        }
        self.buffer.check_wf();
        let ghost l1 = self.buffer@;
        let pos = self.selection.head;
        proof {
            if old(self).wf() && sel0.anchor != sel0.head {
                let (s0, e0) = sorted_spec(sel0);
                lemma_delete_valid(l0, s0, e0);
            }
        }
        let end = self.buffer.insert(pos, text);
        proof {
            if old(self).wf() {
                lemma_insert_then_delete(l1, pos, text@);
            }
        }
        let ghost l2 = self.buffer@;
        let ins = EditOp::Insert { pos, text: String::from_str(text) };
        let ghost ins_op = ins;
        txn.push(ins);
        let ghost t = txn@;
        self.selection = Selection::cursor(end);
        self.dirty = true;
        self.push_transaction(txn);
        proof {
            assert(l1 == without_selection(l0, sel0));
            let c0 = l0.len() as int;
            if sel0.anchor == sel0.head {
                assert(t =~= seq![ins_op]);
                assert(num_apply_upto(c0, t, 0) == c0);
            } else {
                assert(t =~= seq![del_op, ins_op]);
                assert(num_apply_upto(c0, t, 0) == c0);
                assert(num_apply_upto(c0, t, 1) == num_apply_op(c0, del_op));
            }
            if old(self).history_ok() && pos.line < l0.len() {
                lemma_insert_wf(l1, pos, text@);
                lemma_split_len(text@);
                assert(num_apply_ok(c0, t));
                assert(num_apply(c0, t) == l2.len());
                lemma_push_history(c0, l2.len() as int, old(self).undo_stack(), t);
            }
            let (s, e) = sorted_spec(sel0);
            let d = deleted_spec(l0, s, e);
            if pos_valid(l0, s) && pos_valid(l0, e) && (sel0.anchor == sel0.head || normalize_crlf(d) == d) {
                if sel0.anchor == sel0.head {
                    assert(op_revertible(apply_upto(l0, t, 0), t[0]));
                    assert(apply_upto(l0, t, 1) == l2);
                } else {
                    assert(op_revertible(apply_upto(l0, t, 0), t[0]));
                    assert(apply_upto(l0, t, 1) == l1);
                    assert(op_revertible(apply_upto(l0, t, 1), t[1]));
                    assert(apply_upto(l0, t, 2) == l2);
                }
                assert(txn_revertible(l0, t));
                lemma_transaction_roundtrip(l0, t);
            }
        }
        proof {
            assert(self.undo_stack().drop_last() =~= old(self).undo_stack());
        }
        end
    }

    /// Copies the selected text into the yank buffer and returns it; the
    /// text is taken out and put back in place, and the selection is kept
    /// in reading order.
    pub fn yank_selection(&mut self) -> (r: String)
        requires
            old(self).selection.anchor != old(self).selection.head ==> old(self).selection_lines_ok(),
        ensures
            yanked(*old(self), *final(self), r@),
            old(self).history_ok() ==> final(self).history_ok(),
            old(self).wf() ==> final(self).wf(),
    {
        let (start, end) = self.selection.sorted();
        if start == end {
            return String::new();
        }
        let ghost l0 = self.buffer@;
        let yanked = self.buffer.delete_range(start, end);
        proof {
            lemma_deleted_facts(l0, start, end);
            lemma_delete_wf(l0, start, end);
        }
        let ghost l1 = self.buffer@;
        self.buffer.insert(start, yanked.as_str());
        proof {
            if old(self).wf() {
                lemma_delete_valid(l0, start, end);
                lemma_insert_then_delete(l1, start, yanked@);
            }
            lemma_insert_wf(l1, start, yanked@);
            if pos_valid(l0, start) && pos_valid(l0, end) && normalize_crlf(yanked@) == yanked@ {
                lemma_delete_then_insert(l0, start, end);
            }
        }
        self.yank_buffer = yanked.clone();
        self.selection = Selection::new(start, end);
        yanked
    }

    /// Deletes the character under the cursor; at the end of a line (not
    /// the last) it joins the next line on.
    pub fn delete_char(&mut self)
        ensures
            char_deleted(*old(self), *final(self)),
            old(self).history_ok() ==> final(self).history_ok(),
            old(self).wf() ==> final(self).wf(),
    {
        let pos = self.selection.head;
        let line_len = self.len_or0(pos.line);
        let count = self.buffer.line_count();
        if pos.col < line_len {
            self.selection = Selection::new(pos, Position::new(pos.line, pos.col + 1));
            let r = self.delete_selection();
        } else if pos.line < count - 1 {
            self.selection = Selection::new(pos, Position::new(pos.line + 1, 0));
            let r = self.delete_selection();
        }
    }

    /// Reverts the most recent change; returns whether there was one. The
    /// cursor stays where it was, moved into the text if needed.
    pub fn undo(&mut self) -> (b: bool)
        requires
            old(self).history_ok(),
        ensures
            undone(*old(self), *final(self), b),
            final(self).history_ok(),
            old(self).wf() ==> final(self).wf(),
    {
        self.buffer.check_wf();
        let ghost l0 = self.buffer@;
        let ghost us = self.undo_stack();
        let ghost rs = self.redo_stack();
        if let Some(txn) = self.undo_manager.undo() {
            proof {
                let t = us.last();
                assert(num_unapply_ok_top(l0.len() as int, us));
                lemma_num_unapply(l0, t);
                lemma_num_redo_after_undo(l0.len() as int, t);
                assert(self.redo_stack().drop_last() =~= rs);
            }
            self.buffer.apply_transaction_inverse(&txn);
            let h = self.clamp_position(self.selection.head);
            self.selection = Selection::cursor(h);
            self.dirty = true;
            true
        } else {
            false
        }
    }

    /// Performs again the most recently undone change; returns whether
    /// there was one.
    pub fn redo(&mut self) -> (b: bool)
        requires
            old(self).history_ok(),
        ensures
            redone(*old(self), *final(self), b),
            final(self).history_ok(),
            old(self).wf() ==> final(self).wf(),
    {
        self.buffer.check_wf();
        let ghost l0 = self.buffer@;
        let ghost us = self.undo_stack();
        let ghost rs = self.redo_stack();
        if let Some(txn) = self.undo_manager.redo() {
            proof {
                let t = rs.last();
                lemma_num_apply(l0, t);
                lemma_num_undo_after_redo(l0.len() as int, t);
                assert(self.undo_stack().drop_last() =~= us);
            }
            self.buffer.apply_transaction(&txn);
            let h = self.clamp_position(self.selection.head);
            self.selection = Selection::cursor(h);
            self.dirty = true;
            true
        } else {
            false
        }
    }

    /// Moves the cursor to the next occurrence of `query` (see
    /// `search_forward_spec`); returns whether there was one. The search
    /// works on characters, so the column it lands on is a character column
    /// also on lines with non-ASCII text.
    pub fn search_forward(&mut self, query: &str) -> (found: bool)
        requires
            query@.len() > 0 ==> head_col_ok(old(self).buffer@, old(self).selection.head),
        ensures
            found == search_forward_spec(old(self).buffer@, old(self).selection.head, query@) is Some,
            found ==> final(self).selection == Selection::cursor_spec(
                search_forward_spec(old(self).buffer@, old(self).selection.head, query@)->0,
            ),
            !found ==> final(self).selection == old(self).selection,
            same_but_selection(*old(self), *final(self)),
            old(self).wf() ==> final(self).wf(),
    {
        let q = to_chars(query);
        if q.len() == 0 {
            return false;
        }
        let h = self.selection.head;
        let count = self.buffer.line_count();
        if let Some(line) = self.buffer.line(h.line) {
            let lc = to_chars(line);
            if let Some(idx) = find_from(&lc, &q, h.col) {
                proof {
                    lemma_first_from_bound(lc@, q@, h.col as int);
                }
                self.selection = Selection::cursor(Position::new(h.line, idx));
                return true;
            }
        }
        if h.line >= count {
            return false;
        }
        let mut l = h.line + 1;
        while l < count
            invariant
                count == self.buffer@.len(),
                h.line < l <= count,
                q@ == query@,
                q@.len() > 0,
                match_below(self.buffer@, q@, h.line + 1) == match_below(self.buffer@, q@, l as int),
                h == old(self).selection.head,
                search_forward_spec(old(self).buffer@, h, query@) == match_below(self.buffer@, q@, h.line + 1),
                self.selection == old(self).selection,
                same_but_selection(*old(self), *self),
            decreases count - l,
        {
            let lc = to_chars(self.buffer.line(l).unwrap());
            proof {
                assert(lc@ == self.buffer@[l as int]);
            }
            if let Some(idx) = find_from(&lc, &q, 0) {
                proof {
                    lemma_first_from_bound(lc@, q@, 0);
                    assert(match_below(self.buffer@, q@, l as int) == Some(Position { line: l, col: idx }));
                }
                self.selection = Selection::cursor(Position::new(l, idx));
                return true;
            }
            l = l + 1;
        }
        false
    }

    /// Moves the cursor to the previous occurrence of `query` (see
    /// `search_backward_spec`); returns whether there was one. The search
    /// works on characters, so the column it lands on is a character column
    /// also on lines with non-ASCII text.
    pub fn search_backward(&mut self, query: &str) -> (found: bool)
        requires
            query@.len() > 0 ==> head_col_ok(old(self).buffer@, old(self).selection.head),
        ensures
            found == search_backward_spec(old(self).buffer@, old(self).selection.head, query@) is Some,
            found ==> final(self).selection == Selection::cursor_spec(
                search_backward_spec(old(self).buffer@, old(self).selection.head, query@)->0,
            ),
            !found ==> final(self).selection == old(self).selection,
            same_but_selection(*old(self), *final(self)),
            old(self).wf() ==> final(self).wf(),
    {
        let q = to_chars(query);
        if q.len() == 0 {
            return false;
        }
        let h = self.selection.head;
        let count = self.buffer.line_count();
        if let Some(line) = self.buffer.line(h.line) {
            let lc = to_chars(line);
            if h.col >= q.len() {
                if let Some(idx) = rfind_upto(&lc, &q, h.col - q.len()) {
                    proof {
                        lemma_last_upto_bound(lc@, q@, h.col - q.len());
                    }
                    self.selection = Selection::cursor(Position::new(h.line, idx));
                    return true;
                }
            }
        }
        let mut l = h.line;
        while l > 0
            invariant
                count == self.buffer@.len(),
                l <= h.line,
                q@ == query@,
                q@.len() > 0,
                match_above(self.buffer@, q@, h.line as int) == match_above(self.buffer@, q@, l as int),
                h == old(self).selection.head,
                search_backward_spec(old(self).buffer@, h, query@) == match_above(self.buffer@, q@, h.line as int),
                self.selection == old(self).selection,
                same_but_selection(*old(self), *self),
            decreases l,
        {
            if l - 1 < count {
                let lc = to_chars(self.buffer.line(l - 1).unwrap());
                proof {
                    assert(lc@ == self.buffer@[l - 1]);
                }
                if lc.len() >= q.len() {
                    if let Some(idx) = rfind_upto(&lc, &q, lc.len() - q.len()) {
                        proof {
                            lemma_last_upto_bound(lc@, q@, lc.len() - q.len());
                            assert(match_above(self.buffer@, q@, l as int) == Some(Position { line: (l - 1) as usize, col: idx }));
                        }
                        self.selection = Selection::cursor(Position::new(l - 1, idx));
                        return true;
                    }
                }
            }
            l = l - 1;
        }
        false
    }
}

} // verus!
