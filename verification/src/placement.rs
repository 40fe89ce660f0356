use vstd::prelude::*;
use crate::position::{Position, pos_le};
use crate::buffer::{wf_lines, pos_valid, clamp_col, delete_spec};
use crate::search::{occurs_at, first_from, last_upto};
use crate::editor_state::{
    clamp_spec, left_of, right_of, above, below, line_len_or0, min_usize, skip_word, skip_blanks,
    back_word, word_forward, word_backward, match_right, match_left, matching_col, closer_of,
    opener_of,
};

verus! {

/// A clamped position lies within the text.
pub proof fn lemma_clamp_valid(ls: Seq<Seq<char>>, p: Position)
    requires
        wf_lines(ls),
    ensures
        pos_valid(ls, clamp_spec(ls, p)),
{
}

/// One-step moves from a position within the text stay within it.
pub proof fn lemma_steps_valid(ls: Seq<Seq<char>>, h: Position)
    requires
        wf_lines(ls),
        pos_valid(ls, h),
    ensures
        pos_valid(ls, left_of(ls, h)),
        pos_valid(ls, right_of(ls, h)),
        pos_valid(ls, above(ls, h)),
        pos_valid(ls, below(ls, h)),
{
}

proof fn lemma_skip_word_bound(line: Seq<char>, c: int)
    requires
        0 <= c <= line.len(),
    ensures
        c <= skip_word(line, c) <= line.len(),
    decreases line.len() - c,
{
    if c < line.len() && !(line[c] == ' ' || line[c] == '\t') {
        lemma_skip_word_bound(line, c + 1);
    }
}

proof fn lemma_skip_blanks_bound(line: Seq<char>, c: int)
    requires
        0 <= c <= line.len(),
    ensures
        c <= skip_blanks(line, c) <= line.len(),
    decreases line.len() - c,
{
    if c < line.len() && (line[c] == ' ' || line[c] == '\t') {
        lemma_skip_blanks_bound(line, c + 1);
    }
}

proof fn lemma_back_word_bound(line: Seq<char>, c: int)
    requires
        0 <= c,
    ensures
        0 <= back_word(line, c) <= c,
    decreases c,
{
    if c > 0 {
        lemma_back_word_bound(line, c - 1);
    }
}

/// Word moves from a position within the text stay within it.
pub proof fn lemma_words_valid(ls: Seq<Seq<char>>, h: Position)
    requires
        wf_lines(ls),
        pos_valid(ls, h),
    ensures
        pos_valid(ls, word_forward(ls, h)),
        pos_valid(ls, word_backward(ls, h)),
{
    let line = ls[h.line as int];
    lemma_skip_word_bound(line, h.col as int);
    lemma_skip_blanks_bound(line, skip_word(line, h.col as int));
    if h.col > 0 {
        lemma_back_word_bound(line, h.col - 1);
    }
}

proof fn lemma_match_right_bound(line: Seq<char>, o: char, k: char, j: int, d: int)
    ensures
        match_right(line, o, k, j, d) matches Some(x) ==> j <= x < line.len(),
    decreases line.len() - j,
{
    if 0 <= j < line.len() {
        let d2 = if line[j] == o {
            d + 1
        } else if line[j] == k {
            d - 1
        } else {
            d
        };
        lemma_match_right_bound(line, o, k, j + 1, d2);
    }
}

proof fn lemma_match_left_bound(line: Seq<char>, o: char, k: char, j: int, d: int)
    ensures
        match_left(line, o, k, j, d) matches Some(x) ==> 0 <= x <= j < line.len(),
    decreases j + 1,
{
    if 0 <= j < line.len() {
        let d2 = if line[j] == k {
            d + 1
        } else if line[j] == o {
            d - 1
        } else {
            d
        };
        lemma_match_left_bound(line, o, k, j - 1, d2);
    }
}

/// The matching bracket lies on the cursor's line.
pub proof fn lemma_matching_valid(ls: Seq<Seq<char>>, h: Position)
    requires
        pos_valid(ls, h),
    ensures
        matching_col(ls, h) matches Some(c) ==> 0 <= c < ls[h.line as int].len(),
{
    if h.col < ls[h.line as int].len() {
        let line = ls[h.line as int];
        let c = line[h.col as int];
        match closer_of(c) {
            Some(k) => lemma_match_right_bound(line, c, k, h.col + 1, 1),
            None => match opener_of(c) {
                Some(o) => lemma_match_left_bound(line, o, c, h.col - 1, 1),
                None => {},
            },
        }
    }
}

/// A match found by `first_from` occurs in the line.
pub proof fn lemma_first_from_bound(line: Seq<char>, q: Seq<char>, i: int)
    ensures
        first_from(line, q, i) matches Some(x) ==> occurs_at(line, q, x),
    decreases line.len() + 1 - i,
{
    if !(i < 0 || i + q.len() > line.len()) && !occurs_at(line, q, i) {
        lemma_first_from_bound(line, q, i + 1);
    }
}

/// A match found by `last_upto` occurs in the line.
pub proof fn lemma_last_upto_bound(line: Seq<char>, q: Seq<char>, j: int)
    ensures
        last_upto(line, q, j) matches Some(x) ==> occurs_at(line, q, x),
    decreases j + 1,
{
    if j >= 0 && !occurs_at(line, q, j) {
        lemma_last_upto_bound(line, q, j - 1);
    }
}

/// After a deletion the start of the deleted range lies within the text.
pub proof fn lemma_delete_valid(ls: Seq<Seq<char>>, s: Position, e: Position)
    requires
        wf_lines(ls),
        pos_valid(ls, s),
        s.line <= e.line < ls.len(),
    ensures
        pos_valid(delete_spec(ls, s, e), s),
{
    let sl = ls[s.line as int];
    assert(clamp_col(sl, s.col) == s.col);
    assert(delete_spec(ls, s, e)[s.line as int].len() >= s.col);
}

} // verus!
