use vstd::prelude::*;
use crate::position::{Position, pos_le};
use crate::selection::sorted_spec;
use crate::text::{lines_view, normalize_crlf, split_lines, join_lines, lemma_join_split, lemma_split_join, all_no_newline};
use crate::buffer::{pos_valid, deleted_spec, apply_ops, unapply_ops, wf_lines, txn_revertible, lemma_transaction_roundtrip};
use crate::editor_state::{
    EditorState, EditorMode, typed, range_deleted, undone, redone, search_forward_spec,
    search_backward_spec, match_below, match_above,
};
use crate::search::{occurs_at, first_from, last_upto};
use crate::placement::{lemma_first_from_bound, lemma_last_upto_bound};
use crate::file_io::{unify_newlines, no_carriage_return};
use crate::skk::{
    SkkEngine, SkkState, toggled_engine, next_index, prev_index, char_processed, confirmed,
    cancelled, index_moved, index_in_range,
};
use crate::selection::Selection;
use crate::renderer::{Renderer, text_row_spec, row_tabs_ok};
use crate::editor_state::{left_of, right_of, cursor_stepped};
use crate::keymap::binding;
use crate::input::{InputEvent, KeyCode, Modifiers};
use crate::command::Command;
use crate::app::{executed, AppAction};
use crate::renderer::number_spec;
use crate::editor_state::line_len_or0;
use crate::app::skk_applied;
use crate::skk::SkkAction;

verus! {

/// Typing text and then undoing gives back the text as it was, with the
/// undo history as it was (when the positions involved lay within the text
/// and any replaced selection held no `"\r\n"`).
pub proof fn law_type_then_undo(a: EditorState, b: EditorState, c: EditorState, t: Seq<char>, r: Position, did: bool)
    requires
        typed(a, b, t, r),
        pos_valid(a.buffer@, sorted_spec(a.selection).0),
        pos_valid(a.buffer@, sorted_spec(a.selection).1),
        a.selection.anchor == a.selection.head || normalize_crlf(
            deleted_spec(a.buffer@, sorted_spec(a.selection).0, sorted_spec(a.selection).1),
        ) == deleted_spec(a.buffer@, sorted_spec(a.selection).0, sorted_spec(a.selection).1),
        undone(b, c, did),
    ensures
        did,
        c.buffer@ == a.buffer@,
        c.undo_stack() == a.undo_stack(),
{
}

/// Typing text, undoing and redoing gives the typed text again, with the
/// same undo history and nothing left to redo.
pub proof fn law_type_undo_redo(
    a: EditorState,
    b: EditorState,
    c: EditorState,
    d: EditorState,
    t: Seq<char>,
    r: Position,
    did_undo: bool,
    did_redo: bool,
)
    requires
        typed(a, b, t, r),
        pos_valid(a.buffer@, sorted_spec(a.selection).0),
        pos_valid(a.buffer@, sorted_spec(a.selection).1),
        a.selection.anchor == a.selection.head || normalize_crlf(
            deleted_spec(a.buffer@, sorted_spec(a.selection).0, sorted_spec(a.selection).1),
        ) == deleted_spec(a.buffer@, sorted_spec(a.selection).0, sorted_spec(a.selection).1),
        undone(b, c, did_undo),
        redone(c, d, did_redo),
    ensures
        did_undo && did_redo,
        d.buffer@ == b.buffer@,
        d.undo_stack() == b.undo_stack(),
        d.redo_stack() == b.redo_stack(),
{
    assert(c.redo_stack().len() > 0);
    assert(d.undo_stack() =~= b.undo_stack());
    assert(d.redo_stack() =~= b.redo_stack());
}

/// Deleting a non-empty range and then undoing gives back the text as it
/// was (when the range lay within the text and held no `"\r\n"`).
pub proof fn law_delete_then_undo(a: EditorState, b: EditorState, c: EditorState, s: Position, e: Position, d: Seq<char>, did: bool)
    requires
        range_deleted(a, b, s, e, d),
        d.len() > 0,
        pos_valid(a.buffer@, s),
        pos_valid(a.buffer@, e),
        normalize_crlf(d) == d,
        undone(b, c, did),
    ensures
        did,
        c.buffer@ == a.buffer@,
        c.undo_stack() == a.undo_stack(),
{
}

/// Deleting a non-empty range, undoing and redoing gives the text after
/// the deletion again, with the same undo history and nothing left to redo
/// (when the range lay within the text and held no `"\r\n"`).
pub proof fn law_delete_undo_redo(
    a: EditorState,
    b: EditorState,
    c: EditorState,
    d: EditorState,
    s: Position,
    e: Position,
    t: Seq<char>,
    did_undo: bool,
    did_redo: bool,
)
    requires
        range_deleted(a, b, s, e, t),
        t.len() > 0,
        pos_valid(a.buffer@, s),
        pos_valid(a.buffer@, e),
        normalize_crlf(t) == t,
        undone(b, c, did_undo),
        redone(c, d, did_redo),
    ensures
        did_undo && did_redo,
        c.buffer@ == a.buffer@,
        d.buffer@ == b.buffer@,
        d.undo_stack() == b.undo_stack(),
        d.redo_stack() == b.redo_stack(),
{
    assert(c.redo_stack().len() > 0);
    assert(d.undo_stack() =~= b.undo_stack());
    assert(d.redo_stack() =~= b.redo_stack());
}

/// Undoing the last recorded change and redoing it gives back the text,
/// the undo history and the redo stack, whenever the text is what that
/// change made of some text `x` (undoing gives `x` in between).
pub proof fn law_undo_then_redo(
    a: EditorState,
    b: EditorState,
    c: EditorState,
    x: Seq<Seq<char>>,
    did_undo: bool,
    did_redo: bool,
)
    requires
        a.undo_stack().len() > 0,
        wf_lines(x),
        txn_revertible(x, a.undo_stack().last()),
        a.buffer@ == apply_ops(x, a.undo_stack().last()),
        undone(a, b, did_undo),
        redone(b, c, did_redo),
    ensures
        did_undo && did_redo,
        b.buffer@ == x,
        c.buffer@ == a.buffer@,
        c.undo_stack() == a.undo_stack(),
        c.redo_stack() == a.redo_stack(),
{
    lemma_transaction_roundtrip(x, a.undo_stack().last());
    assert(b.redo_stack().last() == a.undo_stack().last());
    assert(c.undo_stack() =~= a.undo_stack());
    assert(c.redo_stack() =~= a.redo_stack());
}

/// A text without `"\r\n"` survives being split into lines and joined
/// again.
pub proof fn law_text_roundtrip(t: Seq<char>)
    requires
        normalize_crlf(t) == t,
    ensures
        join_lines(split_lines(normalize_crlf(t))) == t,
{
    lemma_join_split(t);
}

/// Well-formed lines survive being joined and split again.
pub proof fn law_lines_roundtrip(ls: Seq<Seq<char>>)
    requires
        wf_lines(ls),
    ensures
        split_lines(join_lines(ls)) == ls,
{
    lemma_split_join(ls);
}

proof fn lemma_unify_no_cr(t: Seq<char>)
    ensures
        no_carriage_return(unify_newlines(t)),
        (forall|i: int| 0 <= i < t.len() ==> t[i] != '\r') ==> unify_newlines(t) == t,
    decreases t.len(),
{
    if t.len() > 0 {
        if t[0] == '\r' && t.len() >= 2 && t[1] == '\n' {
            lemma_unify_no_cr(t.subrange(2, t.len() as int));
        } else {
            lemma_unify_no_cr(t.drop_first());
            if forall|i: int| 0 <= i < t.len() ==> t[i] != '\r' {
                assert(forall|i: int| 0 <= i < t.drop_first().len() ==> #[trigger] t.drop_first()[i] == t[i + 1]);
                assert(seq![t[0]] + t.drop_first() =~= t);
            }
        }
        let u = unify_newlines(t);
        assert forall|i: int| 0 <= i < u.len() implies u[i] != '\r' by {
            if i > 0 {
                if t[0] == '\r' && t.len() >= 2 && t[1] == '\n' {
                    assert(u[i] == unify_newlines(t.subrange(2, t.len() as int))[i - 1]);
                } else {
                    assert(u[i] == unify_newlines(t.drop_first())[i - 1]);
                }
            }
        }
    }
}

/// Unifying line endings leaves no carriage return, and leaves a text
/// without one unchanged.
pub proof fn law_newlines_unified(t: Seq<char>)
    ensures
        no_carriage_return(unify_newlines(t)),
        no_carriage_return(t) ==> unify_newlines(t) == t,
{
    lemma_unify_no_cr(t);
}

/// Lines whose count and lengths fit in `usize`.
pub open spec fn lines_fit(ls: Seq<Seq<char>>) -> bool {
    ls.len() <= usize::MAX && forall|i: int| 0 <= i < ls.len() ==> #[trigger] ls[i].len() <= usize::MAX
}

proof fn lemma_below_occurs(ls: Seq<Seq<char>>, q: Seq<char>, l: int)
    requires
        lines_fit(ls),
    ensures
        match_below(ls, q, l) matches Some(p) ==> p.line < ls.len() && occurs_at(ls[p.line as int], q, p.col as int),
    decreases ls.len() - l,
{
    if 0 <= l < ls.len() {
        assert(ls[l].len() <= usize::MAX);
        lemma_first_from_bound(ls[l], q, 0);
        lemma_below_occurs(ls, q, l + 1);
    }
}

proof fn lemma_above_occurs(ls: Seq<Seq<char>>, q: Seq<char>, l: int)
    requires
        lines_fit(ls),
    ensures
        match_above(ls, q, l) matches Some(p) ==> p.line < ls.len() && occurs_at(ls[p.line as int], q, p.col as int),
    decreases l,
{
    if l > 0 {
        if l - 1 < ls.len() {
            assert(ls[l - 1].len() <= usize::MAX);
            lemma_last_upto_bound(ls[l - 1], q, ls[l - 1].len() - q.len());
        }
        lemma_above_occurs(ls, q, l - 1);
    }
}

/// Where a forward or backward search lands, the query occurs.
pub proof fn law_search_finds_query(ls: Seq<Seq<char>>, h: Position, q: Seq<char>)
    requires
        lines_fit(ls),
    ensures
        search_forward_spec(ls, h, q) matches Some(p) ==> p.line < ls.len() && occurs_at(
            ls[p.line as int],
            q,
            p.col as int,
        ),
        search_backward_spec(ls, h, q) matches Some(p) ==> p.line < ls.len() && occurs_at(
            ls[p.line as int],
            q,
            p.col as int,
        ),
{
    if h.line < ls.len() {
        assert(ls[h.line as int].len() <= usize::MAX);
        lemma_first_from_bound(ls[h.line as int], q, h.col as int);
        lemma_last_upto_bound(ls[h.line as int], q, h.col - q.len());
    }
    lemma_below_occurs(ls, q, h.line + 1);
    lemma_above_occurs(ls, q, h.line as int);
}

/// Stepping to the next candidate and back returns to the same one.
pub proof fn law_candidate_steps_inverse(i: usize, n: int)
    requires
        0 <= i < n,
        n <= usize::MAX,
    ensures
        prev_index(next_index(i, n), n) == i,
        next_index(prev_index(i, n), n) == i,
{
    if i + 1 < n {
        assert((i + 1) % n == i + 1) by (nonlinear_arith)
            requires
                0 <= i + 1 < n,
        ;
    } else {
        assert((i + 1) % n == 0) by (nonlinear_arith)
            requires
                i + 1 == n,
                n > 0,
        ;
    }
    if i > 0 {
        assert((i as int) % n == i) by (nonlinear_arith)
            requires
                0 <= i < n,
        ;
    } else {
        assert(n % n == 0) by (nonlinear_arith)
            requires
                n > 0,
        ;
    }
}

/// Toggling kana input twice from direct input comes back to direct
/// input with the same dictionary.
pub proof fn law_toggle_twice(a: SkkEngine, b: SkkEngine, c: SkkEngine)
    requires
        a.state == SkkState::Direct,
        toggled_engine(a, b),
        toggled_engine(b, c),
    ensures
        c.state == SkkState::Direct,
        c.dict == a.dict,
{
}

/// While the kana engine only collects romaji (its answer is `Nothing`),
/// the text is left as it is; so are a cancelled conversion's text and
/// cursor.
pub proof fn law_pending_romaji_keeps_text(a: EditorState, b: EditorState)
    requires
        skk_applied(a, b, SkkAction::Nothing) || skk_applied(a, b, SkkAction::Cancel),
    ensures
        b == a,
{
}

/// In insert mode no event is taken as a command: it is all text.
pub proof fn law_insert_mode_unmapped(event: InputEvent)
    ensures
        binding(event, EditorMode::Insert) is None,
{
}

/// Moving the cursor right and then left brings it back where it was,
/// unless it stood at the end of the text (where moving right does
/// nothing).
pub proof fn law_right_then_left(a: EditorState, b: EditorState, c: EditorState)
    requires
        a.selection.anchor == a.selection.head,
        pos_valid(a.buffer@, a.selection.head),
        a.selection.head.line < usize::MAX,
        a.selection.head.col < usize::MAX,
        right_of(a.buffer@, a.selection.head) != a.selection.head,
        cursor_stepped(a, b, right_of(a.buffer@, a.selection.head)),
        cursor_stepped(b, c, left_of(b.buffer@, b.selection.head)),
    ensures
        c == a,
{
}

/// The text rows do not depend on which end of the selection is the head
/// (unless line numbers are counted from the cursor's line).
pub proof fn law_rows_ignore_selection_direction(r: Renderer, s1: EditorState, s2: EditorState, i: int)
    requires
        !(r.show_line_numbers && r.show_relative_line_numbers),
        s2 == (EditorState {
            selection: Selection { anchor: s1.selection.head, head: s1.selection.anchor },
            ..s1
        }),
    ensures
        text_row_spec(r, s1, i) == text_row_spec(r, s2, i),
        row_tabs_ok(r, s1, i) == row_tabs_ok(r, s2, i),
{
    assert(sorted_spec(s1.selection) == sorted_spec(s2.selection));
}

/// While converting, the candidate index stays on a candidate through every
/// engine operation, as long as the dictionary has no reading without
/// candidates; so no operation indexes past the candidates.
pub proof fn law_candidate_index_in_range(e1: SkkEngine, e2: SkkEngine, ch: char, r: SkkAction)
    requires
        index_in_range(e1),
    ensures
        char_processed(e1, e2, ch, r) ==> index_in_range(e2),
        toggled_engine(e1, e2) ==> index_in_range(e2),
        confirmed(e1, e2, r) ==> index_in_range(e2),
        cancelled(e1, e2, r) ==> index_in_range(e2),
        index_moved(e1, e2, next_index(e1.candidate_index, e1.candidates@.len() as int))
            ==> index_in_range(e2),
        index_moved(e1, e2, prev_index(e1.candidate_index, e1.candidates@.len() as int))
            ==> index_in_range(e2),
{
    let n = e1.candidates@.len() as int;
    if n > 0 {
        let i = e1.candidate_index as int;
        assert((i + 1) % n < n) by (nonlinear_arith)
            requires
                n > 0,
        ;
    }
    if char_processed(e1, e2, ch, r) && e2.state == SkkState::Converting {
        match e1.state {
            SkkState::Hiragana | SkkState::Katakana | SkkState::Registering => {
                let k = e1.reading@;
                if e1.dict@.contains_key(k) {
                    assert(e1.dict@[k].len() > 0);
                }
                assert(lines_view(e2.candidates@).len() == e2.candidates@.len());
            },
            _ => {},
        }
    }
}

/// In normal mode the navigation keys stand for the moves named after
/// them, whatever modifiers are held: the arrows move one step in their
/// direction, Home goes to the start of the line and End to its end.
pub proof fn law_navigation_keys(m: Modifiers)
    ensures
        binding(InputEvent::Key { code: KeyCode::Left, modifiers: m }, EditorMode::Normal)
            == Some(Command::MoveLeft),
        binding(InputEvent::Key { code: KeyCode::Right, modifiers: m }, EditorMode::Normal)
            == Some(Command::MoveRight),
        binding(InputEvent::Key { code: KeyCode::Up, modifiers: m }, EditorMode::Normal)
            == Some(Command::MoveUp),
        binding(InputEvent::Key { code: KeyCode::Down, modifiers: m }, EditorMode::Normal)
            == Some(Command::MoveDown),
        binding(InputEvent::Key { code: KeyCode::Home, modifiers: m }, EditorMode::Normal)
            == Some(Command::MoveLineStart),
        binding(InputEvent::Key { code: KeyCode::End, modifiers: m }, EditorMode::Normal)
            == Some(Command::MoveLineEnd),
{
}

/// Pressing Home in normal mode puts the cursor at column 0 of its line,
/// and End at the last column of its line (for a cursor within the text).
pub proof fn law_home_end_reach_line_ends(
    m: Modifiers,
    a: EditorState,
    b: EditorState,
    c: EditorState,
    rb: AppAction,
    rc: AppAction,
)
    requires
        a.wf(),
        a.buffer@[a.selection.head.line as int].len() <= usize::MAX,
        binding(InputEvent::Key { code: KeyCode::Home, modifiers: m }, EditorMode::Normal) matches Some(
            cmd,
        ) && executed(cmd, a, b, rb),
        binding(InputEvent::Key { code: KeyCode::End, modifiers: m }, EditorMode::Normal) matches Some(
            cmd,
        ) && executed(cmd, a, c, rc),
    ensures
        b.selection.head == (Position { line: a.selection.head.line, col: 0 }),
        b.selection.anchor == b.selection.head,
        c.selection.head.line == a.selection.head.line,
        c.selection.head.col == a.buffer@[a.selection.head.line as int].len(),
        c.selection.anchor == c.selection.head,
        b.buffer == a.buffer && c.buffer == a.buffer,
        rb == AppAction::Continue && rc == AppAction::Continue,
{
}

/// Moving up never goes to a later line; from any line but the first it
/// goes to the line just above, keeping the column where that line allows.
/// Moving down is the mirror image; so up then down comes back to the
/// same line.
pub proof fn law_vertical_moves(
    a: EditorState,
    b: EditorState,
    c: EditorState,
    r1: AppAction,
    r2: AppAction,
)
    requires
        a.wf(),
        a.buffer@.len() <= usize::MAX,
    ensures
        executed(Command::MoveUp, a, b, r1) ==> {
            &&& r1 == AppAction::Continue
            &&& b.buffer == a.buffer
            &&& b.selection.head.line <= a.selection.head.line
            &&& b.selection.head.col <= a.selection.head.col
            &&& a.selection.head.line > 0 ==> b.selection.head.line == a.selection.head.line - 1
        },
        executed(Command::MoveDown, a, b, r1) ==> {
            &&& r1 == AppAction::Continue
            &&& b.buffer == a.buffer
            &&& b.selection.head.line >= a.selection.head.line
            &&& b.selection.head.col <= a.selection.head.col
            &&& a.selection.head.line + 1 < a.buffer@.len() ==> b.selection.head.line
                == a.selection.head.line + 1
        },
        executed(Command::ExtendSelectionUp, a, b, r1) ==> {
            &&& b.selection.anchor == a.selection.anchor
            &&& b.selection.head.line <= a.selection.head.line
            &&& a.selection.head.line > 0 ==> b.selection.head.line == a.selection.head.line - 1
        },
        executed(Command::ExtendSelectionDown, a, b, r1) ==> {
            &&& b.selection.anchor == a.selection.anchor
            &&& b.selection.head.line >= a.selection.head.line
            &&& a.selection.head.line + 1 < a.buffer@.len() ==> b.selection.head.line
                == a.selection.head.line + 1
        },
        executed(Command::MoveUp, a, b, r1) && executed(Command::MoveDown, b, c, r2)
            && a.selection.head.line > 0 ==> c.selection.head.line == a.selection.head.line,
{
}

/// With relative line numbers on, every line but the cursor's shows its
/// distance from the cursor's line: lines equally far above and below
/// show the same number, the lines next to the cursor's show 1, and each
/// line further away shows one more. Otherwise a line shows its number
/// counted from one.
pub proof fn law_relative_numbers(r: Renderer, h: int, l: int)
    requires
        0 <= h,
        0 <= l,
    ensures
        r.show_relative_line_numbers && l != h && 2 * h - l >= 0 ==> number_spec(r, h, l)
            == number_spec(r, h, 2 * h - l),
        r.show_relative_line_numbers && l != h ==> number_spec(r, h, l) >= 1 && (l
            + number_spec(r, h, l) == h || l - number_spec(r, h, l) == h),
        r.show_relative_line_numbers && l > h ==> number_spec(r, h, l + 1) == number_spec(r, h, l)
            + 1,
        r.show_relative_line_numbers && 0 < l < h ==> number_spec(r, h, l - 1) == number_spec(
            r,
            h,
            l,
        ) + 1,
        !r.show_relative_line_numbers || l == h ==> number_spec(r, h, l) == l + 1,
{
}

/// Searching a line from `i` finds the first occurrence at or after `i`:
/// none before an occurrence at `c`.
proof fn lemma_first_from_finds(line: Seq<char>, q: Seq<char>, i: int, c: int)
    requires
        0 <= i <= c,
        occurs_at(line, q, c),
    ensures
        first_from(line, q, i) matches Some(f) && i <= f <= c && occurs_at(line, q, f),
    decreases c - i,
{
    if !occurs_at(line, q, i) {
        lemma_first_from_finds(line, q, i + 1, c);
    }
}

/// Searching the lines from `l` on finds an occurrence no later than one
/// at `p`.
proof fn lemma_match_below_finds(ls: Seq<Seq<char>>, q: Seq<char>, l: int, p: Position)
    requires
        lines_fit(ls),
        0 <= l <= p.line < ls.len(),
        occurs_at(ls[p.line as int], q, p.col as int),
    ensures
        match_below(ls, q, l) matches Some(f) && l <= f.line <= p.line && occurs_at(
            ls[f.line as int],
            q,
            f.col as int,
        ) && (f.line == p.line ==> f.col <= p.col),
    decreases p.line - l,
{
    assert(ls[l].len() <= usize::MAX);
    lemma_first_from_bound(ls[l], q, 0);
    if l == p.line {
        lemma_first_from_finds(ls[l], q, 0, p.col as int);
    } else if first_from(ls[l], q, 0) is None {
        lemma_match_below_finds(ls, q, l + 1, p);
    }
}

/// `p` is at or after the cursor `h`, where a forward search looks: later
/// on the cursor's line, or on a later line.
pub open spec fn at_or_after(h: Position, p: Position) -> bool {
    p.line > h.line || (p.line == h.line && p.col >= h.col)
}

/// A forward search finds the first occurrence at or after the cursor:
/// whenever the query occurs at some `p` at or after the cursor, the
/// search lands on an occurrence at or after the cursor, and no later
/// than `p`. So it never misses an occurrence, and none lies between the
/// cursor and where it lands.
pub proof fn law_search_forward_first(ls: Seq<Seq<char>>, h: Position, q: Seq<char>, p: Position)
    requires
        lines_fit(ls),
        q.len() > 0,
        p.line < ls.len(),
        at_or_after(h, p),
        occurs_at(ls[p.line as int], q, p.col as int),
    ensures
        search_forward_spec(ls, h, q) matches Some(f) && f.line < ls.len() && occurs_at(
            ls[f.line as int],
            q,
            f.col as int,
        ) && at_or_after(h, f) && pos_le(f, p),
{
    if p.line == h.line {
        assert(ls[h.line as int].len() <= usize::MAX);
        lemma_first_from_finds(ls[h.line as int], q, h.col as int, p.col as int);
    } else {
        if h.line < ls.len() && first_from(ls[h.line as int], q, h.col as int) is Some {
            assert(ls[h.line as int].len() <= usize::MAX);
            lemma_first_from_bound(ls[h.line as int], q, h.col as int);
            lemma_first_from_at_least(ls[h.line as int], q, h.col as int);
        } else {
            lemma_match_below_finds(ls, q, h.line + 1, p);
        }
    }
}

/// What `first_from` finds lies at or after where it started.
proof fn lemma_first_from_at_least(line: Seq<char>, q: Seq<char>, i: int)
    ensures
        first_from(line, q, i) matches Some(f) ==> i <= f,
    decreases line.len() + 1 - i,
{
    if !(i < 0 || i + q.len() > line.len()) && !occurs_at(line, q, i) {
        lemma_first_from_at_least(line, q, i + 1);
    }
}

/// Searching a line backward from `j` finds the last occurrence at or
/// before `j`: none after an occurrence at `c`.
proof fn lemma_last_upto_finds(line: Seq<char>, q: Seq<char>, j: int, c: int)
    requires
        0 <= c <= j,
        occurs_at(line, q, c),
    ensures
        last_upto(line, q, j) matches Some(f) && c <= f <= j && occurs_at(line, q, f),
    decreases j - c,
{
    if !occurs_at(line, q, j) {
        lemma_last_upto_finds(line, q, j - 1, c);
    }
}

/// What `last_upto` finds lies at or before where it started.
proof fn lemma_last_upto_at_most(line: Seq<char>, q: Seq<char>, j: int)
    ensures
        last_upto(line, q, j) matches Some(f) ==> f <= j,
    decreases j + 1,
{
    if j >= 0 && !occurs_at(line, q, j) {
        lemma_last_upto_at_most(line, q, j - 1);
    }
}

/// Searching the lines before `l` backward finds an occurrence no earlier
/// than one at `p`.
proof fn lemma_match_above_finds(ls: Seq<Seq<char>>, q: Seq<char>, l: int, p: Position)
    requires
        lines_fit(ls),
        p.line < l,
        p.line < ls.len(),
        occurs_at(ls[p.line as int], q, p.col as int),
    ensures
        match_above(ls, q, l) matches Some(f) && p.line <= f.line < l && f.line < ls.len()
            && occurs_at(ls[f.line as int], q, f.col as int) && (f.line == p.line ==> p.col <= f.col),
    decreases l,
{
    let k = l - 1;
    if k < ls.len() {
        assert(ls[k].len() <= usize::MAX);
        lemma_last_upto_bound(ls[k], q, ls[k].len() - q.len());
    }
    if k == p.line {
        lemma_last_upto_finds(ls[k], q, ls[k].len() - q.len(), p.col as int);
    } else if !(k < ls.len() && last_upto(ls[k], q, ls[k].len() - q.len()) is Some) {
        lemma_match_above_finds(ls, q, l - 1, p);
    }
}

/// `p` is a place where `q` ends at or before the cursor `h`, where a
/// backward search looks: earlier on the cursor's line, or on an earlier
/// line.
pub open spec fn ends_before(h: Position, p: Position, q: Seq<char>) -> bool {
    p.line < h.line || (p.line == h.line && p.col + q.len() <= h.col)
}

/// A backward search finds the last occurrence before the cursor: whenever
/// the query occurs at some `p` ending at or before the cursor, the search
/// lands on an occurrence ending at or before the cursor, and no earlier
/// than `p`.
pub proof fn law_search_backward_last(ls: Seq<Seq<char>>, h: Position, q: Seq<char>, p: Position)
    requires
        lines_fit(ls),
        q.len() > 0,
        p.line < ls.len(),
        ends_before(h, p, q),
        occurs_at(ls[p.line as int], q, p.col as int),
    ensures
        search_backward_spec(ls, h, q) matches Some(f) && f.line < ls.len() && occurs_at(
            ls[f.line as int],
            q,
            f.col as int,
        ) && ends_before(h, f, q) && pos_le(p, f),
{
    if h.line < ls.len() {
        assert(ls[h.line as int].len() <= usize::MAX);
        lemma_last_upto_bound(ls[h.line as int], q, h.col - q.len());
        lemma_last_upto_at_most(ls[h.line as int], q, h.col - q.len());
    }
    if p.line == h.line {
        lemma_last_upto_finds(ls[h.line as int], q, h.col - q.len(), p.col as int);
    } else if !(h.line < ls.len() && last_upto(ls[h.line as int], q, h.col - q.len()) is Some) {
        lemma_match_above_finds(ls, q, h.line as int, p);
    }
}

} // verus!
