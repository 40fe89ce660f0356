use vstd::prelude::*;
use crate::position::Position;
use crate::selection::Selection;
use crate::text::to_chars;
use crate::placement::{lemma_steps_valid, lemma_clamp_valid, lemma_words_valid, lemma_matching_valid};
use crate::editor_state::{
    EditorState, EditorMode, left_of, right_of, above, below, clamp_spec, same_but_selection,
    line_len_or0, sat_sub, sat_add, skip_word, skip_blanks, back_word, word_forward,
    word_backward, is_blank, match_right, match_left, matching_col, closer_of, opener_of,
    min_usize,
};

verus! {

/// `b` differs from `a` at most in the selection and the mode.
pub open spec fn same_but_selection_and_mode(a: EditorState, b: EditorState) -> bool {
    &&& a.buffer == b.buffer
    &&& a.dirty == b.dirty
    &&& a.yank_buffer == b.yank_buffer
    &&& a.undo_manager == b.undo_manager
    &&& a.message == b.message
    &&& a.file_path == b.file_path
    &&& a.command_buffer == b.command_buffer
    &&& a.search_query == b.search_query
    &&& a.skk_engine == b.skk_engine
    &&& a.skk_enabled == b.skk_enabled
}

/// The selection that covers the whole line of `h` (clamped to the last
/// line): from its start to the start of the next line, or to its own end
/// on the last line.
pub open spec fn line_selection(ls: Seq<Seq<char>>, h: Position) -> Selection {
    let l = min_usize(h.line, ls.len() - 1);
    Selection {
        anchor: Position { line: l, col: 0 },
        head: if l + 1 < ls.len() {
            Position { line: (l + 1) as usize, col: 0 }
        } else {
            Position { line: l, col: line_len_or0(ls, l) as usize }
        },
    }
}

/// Where appending starts: one character to the right of `h`, unless `h`
/// is already at (or past) the end of its line.
pub open spec fn append_pos(ls: Seq<Seq<char>>, h: Position) -> Position {
    if h.col < line_len_or0(ls, h.line) {
        Position { line: h.line, col: (h.col + 1) as usize }
    } else {
        h
    }
}

fn blank(c: char) -> (b: bool)
    ensures
        b == is_blank(c),
{
    c == ' ' || c == '\t'
}

fn skip_word_exec(line: &Vec<char>, c: usize) -> (r: usize)
    ensures
        r == skip_word(line@, c as int),
{
    let mut i = c;
    while i < line.len() && !blank(line[i])
        invariant
            c <= i,
            skip_word(line@, i as int) == skip_word(line@, c as int),
        decreases line.len() - i,
    {
        i = i + 1;
    }
    i
}

fn skip_blanks_exec(line: &Vec<char>, c: usize) -> (r: usize)
    ensures
        r == skip_blanks(line@, c as int),
{
    let mut i = c;
    while i < line.len() && blank(line[i])
        invariant
            c <= i,
            skip_blanks(line@, i as int) == skip_blanks(line@, c as int),
        decreases line.len() - i,
    {
        i = i + 1;
    }
    i
}

fn back_word_exec(line: &Vec<char>, c: usize) -> (r: usize)
    requires
        c < line.len(),
    ensures
        r == back_word(line@, c as int),
{
    let mut i = c;
    while i > 0 && !blank(line[i])
        invariant
            i <= c < line.len(),
            back_word(line@, i as int) == back_word(line@, c as int),
        decreases i,
    {
        i = i - 1;
    }
    i
}

/// The column where the bracket matching the opener `o` lies, scanning
/// right from `start` with one bracket open.
fn scan_right(line: &Vec<char>, o: char, k: char, start: usize) -> (r: Option<usize>)
    requires
        1 <= start <= line.len(),
    ensures
        match r {
            Some(j) => match_right(line@, o, k, start as int, 1) == Some(j as int),
            None => match_right(line@, o, k, start as int, 1) is None,
        },
{
    let mut j = start;
    let mut depth: usize = 1;
    while j < line.len()
        invariant
            1 <= start <= j <= line.len(),
            1 <= depth <= j - start + 1,
            match_right(line@, o, k, start as int, 1) == match_right(line@, o, k, j as int, depth as int),
        decreases line.len() - j,
    {
        let c = line[j];
        let d = if c == o {
            depth + 1
        } else if c == k {
            depth - 1
        } else {
            depth
        };
        if d == 0 {
            return Some(j);
        }
        depth = d;
        j = j + 1;
    }
    None
}

/// The column where the bracket matching the closer `k` lies, scanning
/// left from `end - 1` with one bracket open.
fn scan_left(line: &Vec<char>, o: char, k: char, end: usize) -> (r: Option<usize>)
    requires
        end < line.len(),
    ensures
        match r {
            Some(j) => match_left(line@, o, k, end - 1, 1) == Some(j as int),
            None => match_left(line@, o, k, end - 1, 1) is None,
        },
{
    let mut i = end;
    let mut depth: usize = 1;
    while i > 0
        invariant
            i <= end < line.len(),
            1 <= depth <= end - i + 1,
            match_left(line@, o, k, end - 1, 1) == match_left(line@, o, k, i - 1, depth as int),
        decreases i,
    {
        let c = line[i - 1];
        let d = if c == k {
            depth + 1
        } else if c == o {
            depth - 1
        } else {
            depth
        };
        if d == 0 {
            return Some(i - 1);
        }
        depth = d;
        i = i - 1;
    }
    None
}

fn closer(c: char) -> (r: Option<char>)
    ensures
        r == closer_of(c),
{
    if c == '(' {
        Some(')')
    } else if c == '[' {
        Some(']')
    } else if c == '{' {
        Some('}')
    } else {
        None
    }
}

fn opener(c: char) -> (r: Option<char>)
    ensures
        r == opener_of(c),
{
    if c == ')' {
        Some('(')
    } else if c == ']' {
        Some('[')
    } else if c == '}' {
        Some('{')
    } else {
        None
    }
}

impl EditorState {
    /// Moves the head one character left, keeping the anchor.
    pub fn extend_selection_left(&mut self)
        ensures
            final(self).selection == (Selection {
                anchor: old(self).selection.anchor,
                head: left_of(old(self).buffer@, old(self).selection.head),
            }),
            same_but_selection(*old(self), *final(self)),
            old(self).wf() ==> final(self).wf(),
    {
        self.buffer.check_wf();
        proof {
            if old(self).wf() {
                lemma_steps_valid(self.buffer@, self.selection.head);
                lemma_words_valid(self.buffer@, self.selection.head);
                lemma_matching_valid(self.buffer@, self.selection.head);
            }
        }
        let h = self.left_pos(self.selection.head);
        self.selection = Selection::new(self.selection.anchor, h);
    }

    /// Moves the head one character right, keeping the anchor.
    pub fn extend_selection_right(&mut self)
        ensures
            final(self).selection == (Selection {
                anchor: old(self).selection.anchor,
                head: right_of(old(self).buffer@, old(self).selection.head),
            }),
            same_but_selection(*old(self), *final(self)),
            old(self).wf() ==> final(self).wf(),
    {
        self.buffer.check_wf();
        proof {
            if old(self).wf() {
                lemma_steps_valid(self.buffer@, self.selection.head);
                lemma_words_valid(self.buffer@, self.selection.head);
                lemma_matching_valid(self.buffer@, self.selection.head);
            }
        }
        let h = self.right_pos(self.selection.head);
        self.selection = Selection::new(self.selection.anchor, h);
    }

    /// Moves the head one line up, keeping the anchor.
    pub fn extend_selection_up(&mut self)
        ensures
            final(self).selection == (Selection {
                anchor: old(self).selection.anchor,
                head: above(old(self).buffer@, old(self).selection.head),
            }),
            same_but_selection(*old(self), *final(self)),
            old(self).wf() ==> final(self).wf(),
    {
        self.buffer.check_wf();
        proof {
            if old(self).wf() {
                lemma_steps_valid(self.buffer@, self.selection.head);
                lemma_words_valid(self.buffer@, self.selection.head);
                lemma_matching_valid(self.buffer@, self.selection.head);
            }
        }
        let h = self.up_pos(self.selection.head);
        self.selection = Selection::new(self.selection.anchor, h);
    }

    /// Moves the head one line down, keeping the anchor.
    pub fn extend_selection_down(&mut self)
        ensures
            final(self).selection == (Selection {
                anchor: old(self).selection.anchor,
                head: below(old(self).buffer@, old(self).selection.head),
            }),
            same_but_selection(*old(self), *final(self)),
            old(self).wf() ==> final(self).wf(),
    {
        self.buffer.check_wf();
        proof {
            if old(self).wf() {
                lemma_steps_valid(self.buffer@, self.selection.head);
                lemma_words_valid(self.buffer@, self.selection.head);
                lemma_matching_valid(self.buffer@, self.selection.head);
            }
        }
        let h = self.down_pos(self.selection.head);
        self.selection = Selection::new(self.selection.anchor, h);
    }

    /// Drops the anchor: the selection shrinks to the cursor.
    pub fn collapse_selection(&mut self)
        ensures
            final(self).selection == Selection::cursor_spec(old(self).selection.head),
            same_but_selection(*old(self), *final(self)),
            old(self).wf() ==> final(self).wf(),
    {
        self.buffer.check_wf();
        proof {
            if old(self).wf() {
                lemma_steps_valid(self.buffer@, self.selection.head);
                lemma_words_valid(self.buffer@, self.selection.head);
                lemma_matching_valid(self.buffer@, self.selection.head);
            }
        }
        self.selection = self.selection.collapse();
    }

    /// Starts a selection at the cursor: the anchor is set where the head
    /// is.
    pub fn visual_mode(&mut self)
        ensures
            final(self).selection == Selection::cursor_spec(old(self).selection.head),
            same_but_selection(*old(self), *final(self)),
            old(self).wf() ==> final(self).wf(),
    {
        self.buffer.check_wf();
        proof {
            if old(self).wf() {
                lemma_steps_valid(self.buffer@, self.selection.head);
                lemma_words_valid(self.buffer@, self.selection.head);
                lemma_matching_valid(self.buffer@, self.selection.head);
            }
        }
        self.selection = Selection::cursor(self.selection.head);
    }

    /// Moves the cursor `n` lines up (stopping at the first line), clamped
    /// into the text.
    pub fn page_up(&mut self, n: usize)
        ensures
            final(self).selection == Selection::cursor_spec(
                clamp_spec(
                    old(self).buffer@,
                    Position { line: sat_sub(old(self).selection.head.line, n), col: old(self).selection.head.col },
                ),
            ),
            same_but_selection(*old(self), *final(self)),
            old(self).wf() ==> final(self).wf(),
    {
        self.buffer.check_wf();
        proof {
            if old(self).wf() {
                lemma_steps_valid(self.buffer@, self.selection.head);
                lemma_words_valid(self.buffer@, self.selection.head);
                lemma_matching_valid(self.buffer@, self.selection.head);
            }
        }
        let h = self.selection.head;
        let line = if h.line >= n {
            h.line - n
        } else {
            0
        };
        self.move_head_to(Position::new(line, h.col));
    }

    /// Moves the cursor `n` lines down, clamped into the text.
    pub fn page_down(&mut self, n: usize)
        ensures
            final(self).selection == Selection::cursor_spec(
                clamp_spec(
                    old(self).buffer@,
                    Position { line: sat_add(old(self).selection.head.line, n), col: old(self).selection.head.col },
                ),
            ),
            same_but_selection(*old(self), *final(self)),
            old(self).wf() ==> final(self).wf(),
    {
        self.buffer.check_wf();
        proof {
            if old(self).wf() {
                lemma_steps_valid(self.buffer@, self.selection.head);
                lemma_words_valid(self.buffer@, self.selection.head);
                lemma_matching_valid(self.buffer@, self.selection.head);
            }
        }
        let h = self.selection.head;
        let line = if h.line <= usize::MAX - n {
            h.line + n
        } else {
            usize::MAX
        };
        self.move_head_to(Position::new(line, h.col));
    }

    /// Moves the cursor to the start of the next word (see
    /// `word_forward`).
    pub fn move_word_forward(&mut self)
        ensures
            final(self).selection == Selection::cursor_spec(
                word_forward(old(self).buffer@, old(self).selection.head),
            ),
            same_but_selection(*old(self), *final(self)),
            old(self).wf() ==> final(self).wf(),
    {
        self.buffer.check_wf();
        proof {
            if old(self).wf() {
                lemma_steps_valid(self.buffer@, self.selection.head);
                lemma_words_valid(self.buffer@, self.selection.head);
                lemma_matching_valid(self.buffer@, self.selection.head);
            }
        }
        let h = self.selection.head;
        let count = self.buffer.line_count();
        if let Some(line) = self.buffer.line(h.line) {
            let lc = to_chars(line);
            let c = skip_blanks_exec(&lc, skip_word_exec(&lc, h.col));
            if c >= lc.len() && h.line + 1 < count {
                self.selection = Selection::cursor(Position::new(h.line + 1, 0));
            } else {
                self.selection = Selection::cursor(Position::new(h.line, c));
            }
        } else {
            self.selection = Selection::cursor(h);
        }
    }

    /// Moves the cursor back over the word before it (see
    /// `word_backward`).
    pub fn move_word_backward(&mut self)
        ensures
            final(self).selection == Selection::cursor_spec(
                word_backward(old(self).buffer@, old(self).selection.head),
            ),
            same_but_selection(*old(self), *final(self)),
            old(self).wf() ==> final(self).wf(),
    {
        self.buffer.check_wf();
        proof {
            if old(self).wf() {
                lemma_steps_valid(self.buffer@, self.selection.head);
                lemma_words_valid(self.buffer@, self.selection.head);
                lemma_matching_valid(self.buffer@, self.selection.head);
            }
        }
        let h = self.selection.head;
        if let Some(line) = self.buffer.line(h.line) {
            let lc = to_chars(line);
            let c0 = if h.col <= lc.len() {
                h.col
            } else {
                lc.len()
            };
            if c0 == 0 {
                if h.line > 0 {
                    let len = self.len_or0(h.line - 1);
                    self.selection = Selection::cursor(Position::new(h.line - 1, len));
                } else {
                    self.selection = Selection::cursor(Position::new(h.line, 0));
                }
            } else {
                let c = back_word_exec(&lc, c0 - 1);
                self.selection = Selection::cursor(Position::new(h.line, c));
            }
        } else {
            self.selection = Selection::cursor(h);
        }
    }

    /// Selects the cursor's whole line (see `line_selection`).
    pub fn select_line(&mut self)
        ensures
            final(self).selection == line_selection(old(self).buffer@, old(self).selection.head),
            same_but_selection(*old(self), *final(self)),
            old(self).wf() ==> final(self).wf(),
    {
        self.buffer.check_wf();
        proof {
            if old(self).wf() {
                lemma_steps_valid(self.buffer@, self.selection.head);
                lemma_words_valid(self.buffer@, self.selection.head);
                lemma_matching_valid(self.buffer@, self.selection.head);
            }
        }
        let count = self.buffer.line_count();
        let h = self.selection.head;
        let l = if h.line <= count - 1 {
            h.line
        } else {
            count - 1
        };
        let head = if l + 1 < count {
            Position::new(l + 1, 0)
        } else {
            Position::new(l, self.len_or0(l))
        };
        self.selection = Selection::new(Position::new(l, 0), head);
    }

    /// Enters insert mode after the character under the cursor.
    pub fn enter_append_mode(&mut self)
        ensures
            final(self).selection == Selection::cursor_spec(
                append_pos(old(self).buffer@, old(self).selection.head),
            ),
            final(self).mode == EditorMode::Insert,
            same_but_selection_and_mode(*old(self), *final(self)),
            old(self).wf() ==> final(self).wf(),
    {
        let h = self.selection.head;
        let len = self.len_or0(h.line);
        if h.col < len {
            self.selection = Selection::cursor(Position::new(h.line, h.col + 1));
        } else {
            self.selection = Selection::cursor(h);
        }
        self.mode = EditorMode::Insert;
    }

    /// Moves the cursor onto the bracket matching the one under it, on
    /// the same line (see `matching_col`); without one nothing changes.
    pub fn jump_matching_pair(&mut self)
        ensures
            match matching_col(old(self).buffer@, old(self).selection.head) {
                Some(c) => final(self).selection == Selection::cursor_spec(
                    Position { line: old(self).selection.head.line, col: c as usize },
                ),
                None => final(self).selection == old(self).selection,
            },
            same_but_selection(*old(self), *final(self)),
            old(self).wf() ==> final(self).wf(),
    {
        self.buffer.check_wf();
        proof {
            if old(self).wf() {
                lemma_steps_valid(self.buffer@, self.selection.head);
                lemma_words_valid(self.buffer@, self.selection.head);
                lemma_matching_valid(self.buffer@, self.selection.head);
            }
        }
        let h = self.selection.head;
        if let Some(line) = self.buffer.line(h.line) {
            let lc = to_chars(line);
            if h.col < lc.len() {
                let c = lc[h.col];
                match closer(c) {
                    Some(k) => {
                        if let Some(j) = scan_right(&lc, c, k, h.col + 1) {
                            self.selection = Selection::cursor(Position::new(h.line, j));
                        }
                    },
                    None => match opener(c) {
                        Some(o) => {
                            if h.col > 0 {
                                if let Some(j) = scan_left(&lc, o, c, h.col) {
                                    self.selection = Selection::cursor(Position::new(h.line, j));
                                }
                            }
                        },
                        None => {},
                    },
                }
            }
        }
    }
}

} // verus!
