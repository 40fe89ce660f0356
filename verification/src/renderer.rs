use vstd::prelude::*;
use crate::position::Position;
use crate::selection::{Selection, sorted_spec};
use crate::text::{to_chars, push_char, char_string, split_by, split_chars_by, lines_view};
use crate::buffer::{char_advance, char_display_width, tabs_ok};
use crate::width::{str_width, unicode_str_width};
use crate::romaji::char_from_u32;
use crate::editor_state::{EditorState, EditorMode, sat_sub};
use crate::skk::SkkState;

verus! {

/// The decimal digit for `d` (below ten).
pub open spec fn digit(d: nat) -> char {
    (0x30 + d) as char
}

/// `n` written in decimal.
pub open spec fn decimal_spec(n: nat) -> Seq<char>
    decreases n,
{
    if n < 10 {
        seq![digit(n)]
    } else {
        decimal_spec(n / 10) + seq![digit(n % 10)]
    }
}

/// `n` spaces.
pub open spec fn spaces(n: int) -> Seq<char> {
    Seq::new(if n > 0 { n as nat } else { 0 }, |i: int| ' ')
}

/// `s` right-aligned in a field of `w` columns (never cut).
pub open spec fn pad_left(s: Seq<char>, w: int) -> Seq<char> {
    spaces(w - s.len()) + s
}

/// The longest prefix of `s[i..]` that fits in `max` columns when `w`
/// columns are already used.
pub open spec fn fit_from(s: Seq<char>, i: int, w: int, max: int, tab: usize) -> Seq<char>
    decreases s.len() - i,
{
    if i < 0 || i >= s.len() {
        Seq::<char>::empty()
    } else if w + char_advance(s[i], tab, w) > max {
        Seq::<char>::empty()
    } else {
        seq![s[i]] + fit_from(s, i + 1, w + char_advance(s[i], tab, w), max, tab)
    }
}

/// Cutting `s` to `max` columns, from index `i` at column `w`, measures
/// no tab while the tab width is zero (a tab's width needs a nonzero tab
/// width; characters past the cut are never measured).
pub open spec fn fit_tabs_ok(s: Seq<char>, i: int, w: int, max: int, tab: usize) -> bool
    decreases s.len() - i,
{
    if tab > 0 || i < 0 || i >= s.len() {
        true
    } else if s[i] == '\t' {
        false
    } else if w + char_advance(s[i], tab, w) > max {
        true
    } else {
        fit_tabs_ok(s, i + 1, w + char_advance(s[i], tab, w), max, tab)
    }
}

/// An ASCII letter.
pub open spec fn ascii_letter(c: char) -> bool {
    ('A' <= c && c <= 'Z') || ('a' <= c && c <= 'z')
}

/// The end (exclusive) of an escape sequence whose body starts at `k`: just
/// after its first ASCII letter, or the end of `s`.
pub open spec fn escape_end(s: Seq<char>, k: int) -> int
    decreases s.len() - k,
{
    if k < 0 || k >= s.len() {
        s.len() as int
    } else if ascii_letter(s[k]) {
        k + 1
    } else {
        escape_end(s, k + 1)
    }
}

/// An escape sequence ends after its start and within the text.
pub proof fn lemma_escape_end_bound(s: Seq<char>, k: int)
    requires
        0 <= k,
    ensures
        escape_end(s, k) <= s.len(),
        k < s.len() ==> k < escape_end(s, k),
    decreases s.len() - k,
{
    if k < s.len() && !ascii_letter(s[k]) {
        lemma_escape_end_bound(s, k + 1);
    }
}

/// Like `fit_from`, but escape sequences (ESC up to the next ASCII letter)
/// are kept whole and take no columns.
pub open spec fn fit_ansi_from(s: Seq<char>, i: int, w: int, max: int, tab: usize) -> Seq<char>
    decreases s.len() - i,
{
    if i < 0 || i >= s.len() {
        Seq::<char>::empty()
    } else if s[i] == '\x1b' {
        let k = escape_end(s, i + 1);
        proof {
            lemma_escape_end_bound(s, i + 1);
        }
        if k <= i {
            Seq::<char>::empty()
        } else {
            s.subrange(i, k) + fit_ansi_from(s, k, w, max, tab)
        }
    } else if w + char_advance(s[i], tab, w) > max {
        Seq::<char>::empty()
    } else {
        seq![s[i]] + fit_ansi_from(s, i + 1, w + char_advance(s[i], tab, w), max, tab)
    }
}

/// Like `fit_tabs_ok` for `fit_ansi_from`: escape sequences are passed
/// over without being measured.
pub open spec fn fit_ansi_tabs_ok(s: Seq<char>, i: int, w: int, max: int, tab: usize) -> bool
    decreases s.len() - i,
{
    if tab > 0 || i < 0 || i >= s.len() {
        true
    } else if s[i] == '\x1b' {
        let k = escape_end(s, i + 1);
        proof {
            lemma_escape_end_bound(s, i + 1);
        }
        if k <= i {
            true
        } else {
            fit_ansi_tabs_ok(s, k, w, max, tab)
        }
    } else if s[i] == '\t' {
        false
    } else if w + char_advance(s[i], tab, w) > max {
        true
    } else {
        fit_ansi_tabs_ok(s, i + 1, w + char_advance(s[i], tab, w), max, tab)
    }
}

/// The start of reverse video.
pub open spec fn inverse_on() -> Seq<char> {
    seq!['\x1b', '[', '7', 'm']
}

/// The end of all attributes.
pub open spec fn attrs_off() -> Seq<char> {
    seq!['\x1b', '[', '0', 'm']
}

/// `line` with its characters `s..e` (clamped to the line, `s` not after
/// `e`) in reverse video.
pub open spec fn highlight_spec(line: Seq<char>, s: int, e: int) -> Seq<char> {
    let n = line.len() as int;
    let a = if s <= n { s } else { n };
    let b = if e <= n { e } else { n };
    line.subrange(0, a) + inverse_on() + line.subrange(a, b) + attrs_off() + line.subrange(b, n)
}

/// The columns of line `line_idx` (of length `line_len`) that `sel`
/// covers, if any.
pub open spec fn sel_range_spec(sel: Selection, line_idx: int, line_len: int) -> Option<(int, int)> {
    let (start, end) = sorted_spec(sel);
    let s = if start.line == line_idx { start.col as int } else { 0 };
    let e = if end.line == line_idx { end.col as int } else { line_len };
    if sel.anchor == sel.head || start.line > line_idx || end.line < line_idx || s >= e {
        None
    } else {
        Some((s, e))
    }
}

/// The last path component that is neither empty nor `.`, scanning the
/// pieces `parts[..i]` from the back.
pub open spec fn last_component(parts: Seq<Seq<char>>, i: int) -> Option<Seq<char>>
    decreases i,
{
    if i <= 0 || i > parts.len() {
        None
    } else if parts[i - 1].len() == 0 || parts[i - 1] == seq!['.'] {
        last_component(parts, i - 1)
    } else {
        Some(parts[i - 1])
    }
}

/// The final component of a `/`-separated path; none for a path that
/// ends in `..` or has no component.
pub open spec fn file_name_spec(p: Seq<char>) -> Option<Seq<char>> {
    let parts = split_by(p, '/');
    match last_component(parts, parts.len() as int) {
        Some(c) => if c == seq!['.', '.'] {
            None
        } else {
            Some(c)
        },
        None => None,
    }
}

fn digit_char(d: usize) -> (c: char)
    requires
        d < 10,
    ensures
        c == digit(d as nat),
{
    let v: u32 = 0x30 + (d as u32);
    match char_from_u32(v) {
        Some(c) => c,
        None => '0',
    }
}

/// `n` written in decimal.
pub fn decimal(n: usize) -> (s: String)
    ensures
        s@ == decimal_spec(n as nat),
    decreases n,
{
    if n < 10 {
        char_string(digit_char(n))
    } else {
        let mut s = decimal(n / 10);
        push_char(&mut s, digit_char(n % 10));
        s
    }
}

/// Appends `n` spaces to `s`.
fn push_spaces(s: &mut String, n: usize)
    ensures
        final(s)@ == old(s)@ + spaces(n as int),
{
    let mut i: usize = 0;
    while i < n
        invariant
            i <= n,
            s@ == old(s)@ + spaces(i as int),
        decreases n - i,
    {
        push_char(s, ' ');
        proof {
            assert(spaces(i + 1) =~= spaces(i as int).push(' '));
        }
        i = i + 1;
    }
}

/// Appends all of `t` to `s`.
pub(crate) fn push_all(s: &mut String, t: &str)
    ensures
        final(s)@ == old(s)@ + t@,
{
    let cs = to_chars(t);
    let mut i: usize = 0;
    while i < cs.len()
        invariant
            i <= cs@.len(),
            cs@ == t@,
            s@ == old(s)@ + cs@.subrange(0, i as int),
        decreases cs@.len() - i,
    {
        push_char(s, cs[i]);
        proof {
            assert(cs@.subrange(0, i + 1) =~= cs@.subrange(0, i as int).push(cs@[i as int]));
        }
        i = i + 1;
    }
    proof {
        assert(cs@.subrange(0, cs@.len() as int) =~= cs@);
    }
}

/// `s` right-aligned in `w` columns.
fn pad_left_exec(s: &str, w: usize) -> (r: String)
    ensures
        r@ == pad_left(s@, w as int),
{
    let n = to_chars(s).len();
    let mut r = String::new();
    if n < w {
        push_spaces(&mut r, w - n);
    } else {
        proof {
            assert(spaces(w - s@.len()) =~= Seq::<char>::empty());
        }
    }
    push_all(&mut r, s);
    proof {
        assert(r@ =~= pad_left(s@, w as int));
    }
    r
}

/// The columns `c` advances the display when `w` columns are used, or
/// `None` when that would pass `max` (or not be representable).
fn advance_within(c: char, tab: usize, w: usize, max: usize) -> (r: Option<usize>)
    requires
        c == '\t' ==> tab > 0,
        w <= max,
    ensures
        match r {
            Some(x) => x == w + char_advance(c, tab, w as int) && x <= max,
            None => w + char_advance(c, tab, w as int) > max,
        },
{
    let cw = char_display_width(c, tab, w);
    if cw > max - w {
        None
    } else {
        Some(w + cw)
    }
}

/// The longest prefix of `s` that fits in `max_width` columns.
pub fn truncate_to_width(s: &str, max_width: usize, tab_width: usize) -> (r: String)
    requires
        fit_tabs_ok(s@, 0, 0, max_width as int, tab_width),
    ensures
        r@ == fit_from(s@, 0, 0, max_width as int, tab_width),
{
    let cs = to_chars(s);
    let mut r = String::new();
    let mut w: usize = 0;
    let mut i: usize = 0;
    while i < cs.len()
        invariant
            i <= cs@.len(),
            cs@ == s@,
            w <= max_width,
            fit_tabs_ok(cs@, i as int, w as int, max_width as int, tab_width),
            r@ + fit_from(cs@, i as int, w as int, max_width as int, tab_width) == fit_from(
                cs@,
                0,
                0,
                max_width as int,
                tab_width,
            ),
        decreases cs@.len() - i,
    {
        match advance_within(cs[i], tab_width, w, max_width) {
            None => {
                proof {
                    assert(r@ + Seq::<char>::empty() =~= r@);
                }
                return r;
            },
            Some(w2) => {
                let ghost r0 = r@;
                push_char(&mut r, cs[i]);
                proof {
                    let rest = fit_from(cs@, i + 1, w2 as int, max_width as int, tab_width);
                    assert(r@ + rest =~= r0 + (seq![cs@[i as int]] + rest));
                }
                w = w2;
                i = i + 1;
            },
        }
    }
    proof {
        assert(r@ + Seq::<char>::empty() =~= r@);
    }
    r
}

fn is_ascii_letter(c: char) -> (b: bool)
    ensures
        b == ascii_letter(c),
{
    ('A' <= c && c <= 'Z') || ('a' <= c && c <= 'z')
}

/// The longest prefix of `s` that fits in `max_width` columns, escape
/// sequences kept whole and counted as no width.
pub fn truncate_ansi_to_width(s: &str, max_width: usize, tab_width: usize) -> (r: String)
    requires
        fit_ansi_tabs_ok(s@, 0, 0, max_width as int, tab_width),
    ensures
        r@ == fit_ansi_from(s@, 0, 0, max_width as int, tab_width),
{
    let cs = to_chars(s);
    let mut r = String::new();
    let mut w: usize = 0;
    let mut i: usize = 0;
    while i < cs.len()
        invariant
            i <= cs@.len(),
            cs@ == s@,
            w <= max_width,
            fit_ansi_tabs_ok(cs@, i as int, w as int, max_width as int, tab_width),
            r@ + fit_ansi_from(cs@, i as int, w as int, max_width as int, tab_width) == fit_ansi_from(
                cs@,
                0,
                0,
                max_width as int,
                tab_width,
            ),
        decreases cs@.len() - i,
    {
        if cs[i] == '\x1b' {
            let ghost r0 = r@;
            let ghost i0 = i as int;
            proof {
                lemma_escape_end_bound(cs@, i0 + 1);
            }
            push_char(&mut r, cs[i]);
            i = i + 1;
            let mut done = false;
            while i < cs.len() && !done
                invariant
                    0 <= i0,
                    i0 + 1 <= i <= cs@.len(),
                    r@ == r0 + cs@.subrange(i0, i as int),
                    !done ==> escape_end(cs@, i0 + 1) == escape_end(cs@, i as int),
                    done ==> escape_end(cs@, i0 + 1) == i,
                decreases cs@.len() - i,
            {
                let c = cs[i];
                push_char(&mut r, c);
                proof {
                    assert(cs@.subrange(i0, i + 1) =~= cs@.subrange(i0, i as int).push(c));
                }
                i = i + 1;
                if is_ascii_letter(c) {
                    done = true;
                }
            }
            proof {
                assert(escape_end(cs@, i0 + 1) == i);
                let rest = fit_ansi_from(cs@, i as int, w as int, max_width as int, tab_width);
                assert(r@ + rest =~= r0 + (cs@.subrange(i0, i as int) + rest));
            }
        } else {
            match advance_within(cs[i], tab_width, w, max_width) {
                None => {
                    proof {
                        assert(r@ + Seq::<char>::empty() =~= r@);
                    }
                    return r;
                },
                Some(w2) => {
                    let ghost r0 = r@;
                    push_char(&mut r, cs[i]);
                    proof {
                        let rest = fit_ansi_from(cs@, i + 1, w2 as int, max_width as int, tab_width);
                        assert(r@ + rest =~= r0 + (seq![cs@[i as int]] + rest));
                    }
                    w = w2;
                    i = i + 1;
                },
            }
        }
    }
    proof {
        assert(r@ + Seq::<char>::empty() =~= r@);
    }
    r
}

/// Appends `v[from..to]` to `s`.
fn push_range(s: &mut String, v: &Vec<char>, from: usize, to: usize)
    requires
        from <= to <= v@.len(),
    ensures
        final(s)@ == old(s)@ + v@.subrange(from as int, to as int),
{
    let mut i = from;
    while i < to
        invariant
            from <= i <= to <= v@.len(),
            s@ == old(s)@ + v@.subrange(from as int, i as int),
        decreases to - i,
    {
        push_char(s, v[i]);
        proof {
            assert(v@.subrange(from as int, i + 1) =~= v@.subrange(from as int, i as int).push(v@[i as int]));
        }
        i = i + 1;
    }
}

/// `line` with the characters `sel_start..sel_end` in reverse video.
pub fn highlight_line(line: &str, sel_start: usize, sel_end: usize) -> (r: String)
    requires
        sel_start <= sel_end,
    ensures
        r@ == highlight_spec(line@, sel_start as int, sel_end as int),
{
    let cs = to_chars(line);
    let n = cs.len();
    let a = if sel_start <= n {
        sel_start
    } else {
        n
    };
    let b = if sel_end <= n {
        sel_end
    } else {
        n
    };
    let mut r = String::new();
    push_range(&mut r, &cs, 0, a);
    push_all(&mut r, "\x1b[7m");
    push_range(&mut r, &cs, a, b);
    push_all(&mut r, "\x1b[0m");
    push_range(&mut r, &cs, b, n);
    proof {
        reveal_strlit("\x1b[7m");
        reveal_strlit("\x1b[0m");
        assert(r@ =~= highlight_spec(line@, sel_start as int, sel_end as int));
    }
    r
}

/// The columns of line `line_idx` (of `line_len` characters) that the
/// selection covers, if any.
pub fn selection_range_on_line(selection: &Selection, line_idx: usize, line_len: usize) -> (r: Option<(usize, usize)>)
    ensures
        match r {
            Some((s, e)) => sel_range_spec(*selection, line_idx as int, line_len as int) == Some(
                (s as int, e as int),
            ),
            None => sel_range_spec(*selection, line_idx as int, line_len as int) is None,
        },
{
    if selection.is_empty() {
        return None;
    }
    let (start, end) = selection.sorted();
    if start.line > line_idx || end.line < line_idx {
        return None;
    }
    let sel_start = if start.line == line_idx {
        start.col
    } else {
        0
    };
    let sel_end = if end.line == line_idx {
        end.col
    } else {
        line_len
    };
    if sel_start >= sel_end {
        return None;
    }
    Some((sel_start, sel_end))
}

/// The file name of a `/`-separated path (see `file_name_spec`).
pub fn file_name(path: &str) -> (r: Option<String>)
    ensures
        match r {
            Some(n) => file_name_spec(path@) == Some(n@),
            None => file_name_spec(path@) is None,
        },
{
    let cs = to_chars(path);
    let parts = split_chars_by(&cs, 0, cs.len(), '/');
    let ghost ps = split_by(path@, '/');
    proof {
        assert(cs@.subrange(0, cs@.len() as int) =~= cs@);
        assert(lines_view(parts@) == ps);
    }
    let mut i = parts.len();
    while i > 0
        invariant
            i <= parts@.len(),
            lines_view(parts@) == ps,
            ps == split_by(path@, '/'),
            last_component(ps, i as int) == last_component(ps, ps.len() as int),
        decreases i,
    {
        let pc = to_chars(parts[i - 1].as_str());
        proof {
            assert(pc@ == ps[i - 1]);
        }
        if pc.len() == 0 || (pc.len() == 1 && pc[0] == '.') {
            proof {
                if pc.len() == 1 {
                    assert(pc@ =~= seq!['.']);
                }
            }
            i = i - 1;
        } else {
            proof {
                assert(pc@ != seq!['.']);
                assert(last_component(ps, i as int) == Some(pc@));
            }
            if pc.len() == 2 && pc[0] == '.' && pc[1] == '.' {
                proof {
                    assert(pc@ =~= seq!['.', '.']);
                }
                return None;
            }
            proof {
                assert(pc@ != seq!['.', '.']);
            }
            return Some(parts[i - 1].clone());
        }
    }
    None
}

/// A rendered screen: one string per terminal row.
pub struct Frame {
    pub rows: Vec<String>,
}

/// Draws the editor state into rows of a `width` by `height` screen.
pub struct Renderer {
    pub width: usize,
    pub height: usize,
    pub scroll_offset: usize,
    pub tab_width: usize,
    pub show_line_numbers: bool,
    pub show_relative_line_numbers: bool,
}

/// `n` spelled in decimal has at least one digit and, from ten on, fewer
/// digits than `n`.
pub proof fn lemma_decimal_len(n: nat)
    ensures
        decimal_spec(n).len() >= 1,
        n < 10 ==> decimal_spec(n).len() == 1,
        n >= 10 ==> decimal_spec(n).len() < n,
    decreases n,
{
    if n >= 10 {
        lemma_decimal_len(n / 10);
    }
}

/// The gutter's width for a text of `line_count` lines: the digits of the
/// largest line number and a space.
pub open spec fn gutter_width_spec(line_count: int) -> int {
    decimal_spec(if line_count >= 1 { line_count as nat } else { 1 }).len() + 1int
}

/// The number shown in the gutter for line `line_idx`: its distance from
/// the cursor's line when relative numbers are on (the cursor's own line
/// keeps its number), else its number counted from one.
pub open spec fn number_spec(r: Renderer, head_line: int, line_idx: int) -> nat {
    if r.show_relative_line_numbers && line_idx != head_line {
        (if line_idx > head_line { line_idx - head_line } else { head_line - line_idx }) as nat
    } else {
        (line_idx + 1) as nat
    }
}

/// The gutter of one row: the number right-aligned and a space, when line
/// numbers are shown.
pub open spec fn gutter_spec(r: Renderer, head_line: int, line_idx: int, gw: int) -> Seq<char> {
    if r.show_line_numbers {
        pad_left(decimal_spec(number_spec(r, head_line, line_idx)), gw - 1) + seq![' ']
    } else {
        Seq::<char>::empty()
    }
}

/// The gutter's width on this screen (none without line numbers).
pub open spec fn screen_gutter(r: Renderer, st: EditorState) -> int {
    if r.show_line_numbers {
        gutter_width_spec(st.buffer@.len() as int)
    } else {
        0
    }
}

/// Text row `i` of the screen: its gutter, then the line shown there
/// (selected characters in reverse video) cut to the remaining width.
pub open spec fn text_row_spec(r: Renderer, st: EditorState, i: int) -> Seq<char> {
    let li = r.scroll_offset + i;
    let gw = screen_gutter(r, st);
    let tw = if r.width >= gw { r.width - gw } else { 0 };
    let ls = st.buffer@;
    gutter_spec(r, st.selection.head.line as int, li, gw) + if li < ls.len() {
        let line = ls[li];
        match sel_range_spec(st.selection, li, line.len() as int) {
            Some((a, b)) => fit_ansi_from(highlight_spec(line, a, b), 0, 0, tw, r.tab_width),
            None => fit_from(line, 0, 0, tw, r.tab_width),
        }
    } else {
        Seq::<char>::empty()
    }
}

/// Drawing text row `i` measures no tab while the tab width is zero.
pub open spec fn row_tabs_ok(r: Renderer, st: EditorState, i: int) -> bool {
    let li = r.scroll_offset + i;
    let gw = screen_gutter(r, st);
    let tw = if r.width >= gw { r.width - gw } else { 0 };
    let ls = st.buffer@;
    li < ls.len() ==> {
        let line = ls[li];
        match sel_range_spec(st.selection, li, line.len() as int) {
            Some((a, b)) => fit_ansi_tabs_ok(highlight_spec(line, a, b), 0, 0, tw, r.tab_width),
            None => fit_tabs_ok(line, 0, 0, tw, r.tab_width),
        }
    }
}

/// The mode's name, with the kana engine's mode in insert mode when it is
/// enabled and not in direct input.
pub open spec fn mode_label(st: EditorState) -> Seq<char> {
    let base = match st.mode {
        EditorMode::Normal => "NORMAL"@,
        EditorMode::Insert => "INSERT"@,
        EditorMode::Command => "COMMAND"@,
        EditorMode::Search => "SEARCH"@,
    };
    if st.mode == EditorMode::Insert && st.skk_enabled {
        match st.skk_engine.state {
            SkkState::Direct => base,
            SkkState::Hiragana => base + " "@ + "[あ]"@,
            SkkState::Katakana => base + " "@ + "[ア]"@,
            SkkState::Converting => base + " "@ + "[変換]"@,
            SkkState::Registering => base + " "@ + "[登録]"@,
        }
    } else {
        base
    }
}

/// The current file's name, or `[No Name]`.
pub open spec fn file_label(st: EditorState) -> Seq<char> {
    match st.file_path {
        Some(p) => match file_name_spec(p@) {
            Some(n) => n,
            None => "[No Name]"@,
        },
        None => "[No Name]"@,
    }
}

/// The left part of the status line: mode, file name and a mark when
/// modified.
pub open spec fn status_left(st: EditorState) -> Seq<char> {
    "-- "@ + mode_label(st) + " -- "@ + file_label(st) + if st.dirty {
        " [+]"@
    } else {
        Seq::<char>::empty()
    }
}

/// The right part of the status line: the cursor's line and column,
/// counted from one.
pub open spec fn status_right(st: EditorState) -> Seq<char> {
    decimal_spec((st.selection.head.line + 1) as nat) + ":"@ + decimal_spec(
        (st.selection.head.col + 1) as nat,
    )
}

/// The status line: the message if there is one, else the left part and
/// the right part pushed to the right edge; what does not fit is cut.
pub open spec fn status_line_spec(r: Renderer, st: EditorState) -> Seq<char> {
    match st.message {
        Some(m) => fit_from(m@, 0, 0, r.width as int, r.tab_width),
        None => {
            let total = unicode_str_width(status_left(st)) + 1 + unicode_str_width(status_right(st));
            if total >= r.width {
                fit_from(status_left(st), 0, 0, r.width as int, r.tab_width)
            } else {
                status_left(st) + spaces(r.width - total) + status_right(st)
            }
        },
    }
}

/// Drawing the status line measures no tab while the tab width is zero:
/// neither in the message nor, when it is cut, in the left part.
pub open spec fn status_tabs_ok(r: Renderer, st: EditorState) -> bool {
    match st.message {
        Some(m) => fit_tabs_ok(m@, 0, 0, r.width as int, r.tab_width),
        None => unicode_str_width(status_left(st)) + 1 + unicode_str_width(status_right(st)) >= r.width
            ==> fit_tabs_ok(status_left(st), 0, 0, r.width as int, r.tab_width),
    }
}

/// Drawing the whole screen measures no tab while the tab width is zero.
pub open spec fn frame_tabs_ok(r: Renderer, st: EditorState) -> bool {
    &&& forall|i: int| 0 <= i < sat_sub(r.height, 1) ==> #[trigger] row_tabs_ok(r, st, i)
    &&& st.mode != EditorMode::Command && st.mode != EditorMode::Search ==> status_tabs_ok(r, st)
}

/// The last row: the command line or search query being typed, else the
/// status line.
pub open spec fn status_row_spec(r: Renderer, st: EditorState) -> Seq<char> {
    match st.mode {
        EditorMode::Command => seq![':'] + st.command_buffer@,
        EditorMode::Search => seq!['/'] + st.search_query@,
        _ => status_line_spec(r, st),
    }
}

/// The display column after the first `n` characters of `s`, starting at
/// column `start`.
pub open spec fn cols_from(s: Seq<char>, n: int, tab: usize, start: int) -> int
    decreases n,
{
    if n <= 0 {
        start
    } else {
        let w = cols_from(s, n - 1, tab, start);
        w + char_advance(s[n - 1], tab, w)
    }
}

/// Columns never go back.
pub proof fn lemma_cols_monotone(s: Seq<char>, i: int, j: int, tab: usize, start: int)
    requires
        tabs_ok(s, j, tab),
        0 <= i <= j,
    ensures
        cols_from(s, i, tab, start) <= cols_from(s, j, tab, start),
    decreases j - i,
{
    if i < j {
        lemma_cols_monotone(s, i, j - 1, tab, start);
        let w = cols_from(s, j - 1, tab, start);
        if s[j - 1] == '\t' {
            assert(tab > 0);
            assert(w % (tab as int) < tab);
        }
    }
}

/// Finding the cursor's column measures no tab before the cursor while
/// the tab width is zero.
pub open spec fn cursor_tabs_ok(r: Renderer, st: EditorState) -> bool {
    let h = st.selection.head;
    let ls = st.buffer@;
    h.line < ls.len() ==> {
        let line = ls[h.line as int];
        tabs_ok(line, if h.col <= line.len() { h.col as int } else { line.len() as int }, r.tab_width)
    }
}

/// The terminal column of the cursor: after the gutter and the display
/// width of the characters before it, at most the screen's width.
pub open spec fn cursor_col_spec(r: Renderer, st: EditorState) -> int {
    let gw = screen_gutter(r, st);
    let h = st.selection.head;
    let ls = st.buffer@;
    let raw = if h.line < ls.len() {
        let line = ls[h.line as int];
        cols_from(line, if h.col <= line.len() { h.col as int } else { line.len() as int }, r.tab_width, gw)
    } else {
        h.col + gw
    };
    if raw <= r.width {
        raw
    } else {
        r.width as int
    }
}

/// The terminal row of the cursor: its line's distance below the top of
/// the screen, at most the last text row.
pub open spec fn cursor_row_spec(r: Renderer, st: EditorState) -> int {
    let d = sat_sub(st.selection.head.line, r.scroll_offset);
    let m = sat_sub(r.height, 2);
    if d <= m {
        d as int
    } else {
        m as int
    }
}

impl Renderer {
    /// A renderer for a `width` by `height` screen, scrolled to the top,
    /// without line numbers.
    pub open spec fn new_spec(width: usize, height: usize, tab_width: usize) -> Renderer {
        Renderer {
            width,
            height,
            scroll_offset: 0,
            tab_width,
            show_line_numbers: false,
            show_relative_line_numbers: false,
        }
    }

    pub fn new(
        width: usize,
        height: usize,
        tab_width: usize,
        show_line_numbers: bool,
        show_relative_line_numbers: bool,
    ) -> (r: Self)
        ensures
            r.width == width,
            r.height == height,
            r.scroll_offset == 0,
            r.tab_width == tab_width,
            r.show_line_numbers == show_line_numbers,
            r.show_relative_line_numbers == show_relative_line_numbers,
    {
        Self { width, height, scroll_offset: 0, tab_width, show_line_numbers, show_relative_line_numbers }
    }

    /// The gutter's width: the digits of the largest line number and a
    /// space.
    pub fn compute_gutter_width(&self, state: &EditorState) -> (w: usize)
        ensures
            w == gutter_width_spec(state.buffer@.len() as int),
    {
        let count = state.buffer.line_count();
        let m = if count >= 1 {
            count
        } else {
            1
        };
        let d = decimal(m);
        let n = to_chars(d.as_str()).len();
        proof {
            lemma_decimal_len(m as nat);
        }
        n + 1
    }

    /// Adjusts scroll offset so the cursor is visible on screen. Without a
    /// text row (a height below 2) only scrolling up to the cursor is
    /// possible.
    pub fn ensure_cursor_visible(&mut self, state: &EditorState)
        requires
            old(self).height >= 2 || state.selection.head.line < old(self).scroll_offset,
        ensures
            ({
                let c = state.selection.head.line;
                let th = old(self).height - 1;
                let s = old(self).scroll_offset;
                final(self).scroll_offset == (if c < s {
                    c
                } else if c >= s + th {
                    (c - (th - 1)) as usize
                } else {
                    s
                })
            }),
            old(self).height >= 2 ==> final(self).scroll_offset <= state.selection.head.line
                < final(self).scroll_offset + final(self).height - 1,
            final(self).width == old(self).width,
            final(self).height == old(self).height,
            final(self).tab_width == old(self).tab_width,
            final(self).show_line_numbers == old(self).show_line_numbers,
            final(self).show_relative_line_numbers == old(self).show_relative_line_numbers,
    {
        let cursor_line = state.selection.head.line;
        if cursor_line < self.scroll_offset {
            self.scroll_offset = cursor_line;
        } else {
            let text_height = self.height - 1;
            if cursor_line - self.scroll_offset >= text_height {
                self.scroll_offset = cursor_line - (text_height - 1);
            }
        }
    }

    /// Returns (col, row) in terminal coordinates for the current selection
    /// head.
    pub fn cursor_position(&self, state: &EditorState) -> (r: (usize, usize))
        requires
            cursor_tabs_ok(*self, *state),
        ensures
            r.0 == cursor_col_spec(*self, *state),
            r.1 == cursor_row_spec(*self, *state),
    {
        let h = state.selection.head;
        let d = if h.line >= self.scroll_offset {
            h.line - self.scroll_offset
        } else {
            0
        };
        let m = if self.height >= 2 {
            self.height - 2
        } else {
            0
        };
        let row = if d <= m {
            d
        } else {
            m
        };
        let gutter_width = if self.show_line_numbers {
            self.compute_gutter_width(state)
        } else {
            0
        };
        let mut col = gutter_width;
        if let Some(line) = state.buffer.line(h.line) {
            let cs = to_chars(line);
            let lim = if h.col <= cs.len() {
                h.col
            } else {
                cs.len()
            };
            let tab = self.tab_width;
            let mut i: usize = 0;
            while i < lim && col < self.width
                invariant
                    i <= lim <= cs@.len(),
                    tab == self.tab_width,
                    tabs_ok(cs@, lim as int, tab),
                    col < self.width ==> col == cols_from(cs@, i as int, tab, gutter_width as int),
                    col >= self.width ==> cols_from(cs@, i as int, tab, gutter_width as int) >= self.width,
                decreases lim - i,
            {
                let cw = char_display_width(cs[i], tab, col);
                col = if cw <= usize::MAX - col {
                    col + cw
                } else {
                    usize::MAX
                };
                i = i + 1;
            }
            proof {
                if col >= self.width {
                    lemma_cols_monotone(cs@, i as int, lim as int, tab, gutter_width as int);
                }
            }
        } else {
            col = if h.col <= usize::MAX - gutter_width {
                h.col + gutter_width
            } else {
                usize::MAX
            };
        }
        let col = if col <= self.width {
            col
        } else {
            self.width
        };
        (col, row)
    }

    /// The mode's name for the status line.
    fn mode_name(state: &EditorState) -> (r: String)
        ensures
            r@ == mode_label(*state),
    {
        let mut r = String::new();
        match state.mode {
            EditorMode::Normal => push_all(&mut r, "NORMAL"),
            EditorMode::Insert => push_all(&mut r, "INSERT"),
            EditorMode::Command => push_all(&mut r, "COMMAND"),
            EditorMode::Search => push_all(&mut r, "SEARCH"),
        }
        if state.mode == EditorMode::Insert && state.skk_enabled {
            match state.skk_engine.state {
                SkkState::Direct => {},
                SkkState::Hiragana => {
                    push_all(&mut r, " ");
                    push_all(&mut r, "[あ]");
                },
                SkkState::Katakana => {
                    push_all(&mut r, " ");
                    push_all(&mut r, "[ア]");
                },
                SkkState::Converting => {
                    push_all(&mut r, " ");
                    push_all(&mut r, "[変換]");
                },
                SkkState::Registering => {
                    push_all(&mut r, " ");
                    push_all(&mut r, "[登録]");
                },
            }
        }
        proof {
            assert(r@ =~= mode_label(*state));
        }
        r
    }

    /// The status line (see `status_line_spec`).
    fn build_status_line(&self, state: &EditorState) -> (r: String)
        requires
            status_tabs_ok(*self, *state),
            state.selection.head.line < usize::MAX,
            state.selection.head.col < usize::MAX,
        ensures
            r@ == status_line_spec(*self, *state),
    {
        if let Some(msg) = &state.message {
            return truncate_to_width(msg.as_str(), self.width, self.tab_width);
        }
        let mut left = String::new();
        push_all(&mut left, "-- ");
        let mode = Self::mode_name(state);
        push_all(&mut left, mode.as_str());
        push_all(&mut left, " -- ");
        let name = match &state.file_path {
            Some(p) => match file_name(p.as_str()) {
                Some(n) => n,
                None => "[No Name]".to_string(),
            },
            None => "[No Name]".to_string(),
        };
        push_all(&mut left, name.as_str());
        if state.dirty {
            push_all(&mut left, " [+]");
        }
        let mut right = decimal(state.selection.head.line + 1);
        push_all(&mut right, ":");
        let col = decimal(state.selection.head.col + 1);
        push_all(&mut right, col.as_str());
        proof {
            assert(name@ == file_label(*state));
            assert(left@ =~= status_left(*state));
            assert(right@ =~= status_right(*state));
        }
        let left_w = str_width(left.as_str());
        let right_w = str_width(right.as_str());
        if left_w >= self.width || right_w >= self.width - left_w - 1 {
            truncate_to_width(left.as_str(), self.width, self.tab_width)
        } else {
            let pad = self.width - left_w - 1 - right_w;
            let mut out = left;
            push_spaces(&mut out, pad);
            push_all(&mut out, right.as_str());
            out
        }
    }

    /// One text row (see `text_row_spec`).
    fn render_row(&self, state: &EditorState, i: usize, gutter_width: usize) -> (row: String)
        requires
            row_tabs_ok(*self, *state, i as int),
            self.scroll_offset + i < usize::MAX,
            gutter_width == screen_gutter(*self, *state),
        ensures
            row@ == text_row_spec(*self, *state, i as int),
    {
        let line_idx = self.scroll_offset + i;
        let head_line = state.selection.head.line;
        let mut row = String::new();
        if self.show_line_numbers {
            let num = if self.show_relative_line_numbers && line_idx != head_line {
                if line_idx > head_line {
                    line_idx - head_line
                } else {
                    head_line - line_idx
                }
            } else {
                line_idx + 1
            };
            let digits = decimal(num);
            let w = if gutter_width >= 1 {
                gutter_width - 1
            } else {
                0
            };
            let padded = pad_left_exec(digits.as_str(), w);
            push_all(&mut row, padded.as_str());
            push_char(&mut row, ' ');
            proof {
                lemma_decimal_len((state.buffer@.len() as int) as nat);
            }
        }
        let ghost g = row@;
        let text_width = if self.width >= gutter_width {
            self.width - gutter_width
        } else {
            0
        };
        if let Some(line) = state.buffer.line(line_idx) {
            let n = to_chars(line).len();
            match selection_range_on_line(&state.selection, line_idx, n) {
                Some((a, b)) => {
                    let h = highlight_line(line, a, b);
                    let t = truncate_ansi_to_width(h.as_str(), text_width, self.tab_width);
                    push_all(&mut row, t.as_str());
                },
                None => {
                    let t = truncate_to_width(line, text_width, self.tab_width);
                    push_all(&mut row, t.as_str());
                },
            }
        } else {
            proof {
                assert(row@ =~= g + Seq::<char>::empty());
            }
        }
        row
    }

    /// Draws the state: the text rows from the scroll offset, then the
    /// status row.
    pub fn render(&self, state: &EditorState) -> (frame: Frame)
        requires
            frame_tabs_ok(*self, *state),
            self.scroll_offset + self.height <= usize::MAX,
            state.selection.head.line < usize::MAX,
            state.selection.head.col < usize::MAX,
        ensures
            frame.rows@.len() == sat_sub(self.height, 1) + 1,
            forall|i: int|
                0 <= i < sat_sub(self.height, 1) ==> #[trigger] frame.rows@[i]@ == text_row_spec(
                    *self,
                    *state,
                    i,
                ),
            frame.rows@[sat_sub(self.height, 1) as int]@ == status_row_spec(*self, *state),
    {
        let text_height = if self.height >= 1 {
            self.height - 1
        } else {
            0
        };
        let gutter_width = if self.show_line_numbers {
            self.compute_gutter_width(state)
        } else {
            0
        };
        let mut rows: Vec<String> = Vec::new();
        let mut i: usize = 0;
        while i < text_height
            invariant
                i <= text_height,
                text_height == sat_sub(self.height, 1),
                frame_tabs_ok(*self, *state),
                self.scroll_offset + self.height <= usize::MAX,
                gutter_width == screen_gutter(*self, *state),
                rows@.len() == i,
                forall|k: int| 0 <= k < i ==> #[trigger] rows@[k]@ == text_row_spec(*self, *state, k),
            decreases text_height - i,
        {
            let row = self.render_row(state, i, gutter_width);
            rows.push(row);
            i = i + 1;
        }
        let status = match state.mode {
            EditorMode::Command => {
                let mut s = String::new();
                push_char(&mut s, ':');
                push_all(&mut s, state.command_buffer.as_str());
                proof {
                    assert(s@ =~= seq![':'] + state.command_buffer@);
                }
                s
            },
            EditorMode::Search => {
                let mut s = String::new();
                push_char(&mut s, '/');
                push_all(&mut s, state.search_query.as_str());
                proof {
                    assert(s@ =~= seq!['/'] + state.search_query@);
                }
                s
            },
            _ => self.build_status_line(state),
        };
        rows.push(status);
        Frame { rows }
    }

}

} // verus!
