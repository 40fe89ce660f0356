use vstd::prelude::*;
use vstd::string::StringExecFns;
use crate::position::Position;
use crate::selection::{Selection, sorted_spec};
use crate::command::Command;
use crate::text::join_lines;
use crate::buffer::{insert_fits, insert_fits_exec, deleted_spec};
use crate::editor_state::{
    EditorState, EditorMode, left_of, right_of, above, below, clamp_spec, same_but_selection,
    line_len_or0, sat_sub, sat_add, word_forward, word_backward, matching_col, range_deleted,
    insert_target, typed, char_deleted, yanked, undone, redone, search_forward_spec,
    search_backward_spec, fresh_state,
};
use crate::motion::{line_selection, append_pos, same_but_selection_and_mode};
use crate::editing::{case_toggled, indented, unindented, opened_below, opened_above};
use crate::skk::{toggled_engine, SkkAction, SkkState, SkkEngine, committed, load_text, char_processed, cancelled, confirmed};
use crate::renderer::Renderer;
use crate::config::Config;
use crate::keymap::{Keymap, binding};
use crate::input::{InputEvent, KeyCode};
use crate::command::{CommandRegistry, first_space, standard_table};
use crate::file_io::{FileError, file_error_name, opened};
use crate::text::{to_chars, string_of, push_char, str_eq};
use crate::renderer::push_all;

verus! {

/// What the caller of `execute_command` has to do next.
#[derive(Debug, Clone, PartialEq, Eq)]
pub enum AppAction {
    Continue,
    Quit,
    ForceQuit,
    ShowMessage(String),
    /// Write `contents` to the file at `path`, then report the outcome.
    WriteFile { path: String, contents: String },
    /// Read the file at `path`, then report the outcome.
    ReadFile(String),
}

/// The selection after moving its head to `p`: a cursor moves along, a
/// selection keeps its anchor.
pub open spec fn step_sel(sel: Selection, p: Position) -> Selection {
    if sel.anchor == sel.head {
        Selection::cursor_spec(p)
    } else {
        Selection { anchor: sel.anchor, head: p }
    }
}

/// `b` is `a` with the selection `sel`.
pub open spec fn selects(a: EditorState, b: EditorState, sel: Selection) -> bool {
    b.selection == sel && same_but_selection(a, b)
}

/// `b` is `a` with its cursor at `p`.
pub open spec fn cursor_at(a: EditorState, b: EditorState, p: Position) -> bool {
    selects(a, b, Selection::cursor_spec(p))
}

/// `a` after moving the cursor one character right.
pub open spec fn after_right(a: EditorState) -> EditorState {
    let h = a.selection.head;
    let p = right_of(a.buffer@, h);
    EditorState {
        selection: if p == h {
            a.selection
        } else {
            Selection::cursor_spec(p)
        },
        ..a
    }
}

/// `a` after moving the cursor one character left.
pub open spec fn after_left(a: EditorState) -> EditorState {
    let h = a.selection.head;
    let p = left_of(a.buffer@, h);
    EditorState {
        selection: if p == h {
            a.selection
        } else {
            Selection::cursor_spec(p)
        },
        ..a
    }
}

/// `r` shows the message `text`.
pub open spec fn shows(r: AppAction, text: Seq<char>) -> bool {
    r matches AppAction::ShowMessage(m) && m@ == text
}

/// `b` is `a` after typing the yank buffer at the cursor, unless the
/// buffer is empty or the result would not be representable.
pub open spec fn pasted(a: EditorState, b: EditorState, t: Seq<char>) -> bool {
    if t.len() == 0 || !insert_fits(insert_target(a.selection), t) {
        b == a
    } else {
        exists|r: Position| #[trigger] typed(a, b, t, r)
    }
}

/// `b` is `a` after deleting the selection, or the character under the
/// cursor when nothing is selected.
pub open spec fn deleted(a: EditorState, b: EditorState) -> bool {
    let (s, e) = sorted_spec(a.selection);
    if a.selection.anchor == a.selection.head {
        char_deleted(a, b)
    } else {
        range_deleted(a, b, s, e, deleted_spec(a.buffer@, s, e))
    }
}

/// `b` is `a` after searching forward for `q` from the cursor; `r` reports
/// a miss.
pub open spec fn searched_forward(a: EditorState, b: EditorState, q: Seq<char>, r: AppAction) -> bool {
    let found = search_forward_spec(a.buffer@, a.selection.head, q);
    &&& selects(a, b, if found is Some {
        Selection::cursor_spec(found->0)
    } else {
        a.selection
    })
    &&& found is Some ==> r == AppAction::Continue
    &&& found is None ==> shows(r, "Pattern not found: "@ + q)
}

/// `b` is `a` after searching backward for `q` from the cursor; `r`
/// reports a miss.
pub open spec fn searched_backward(a: EditorState, b: EditorState, q: Seq<char>, r: AppAction) -> bool {
    let found = search_backward_spec(a.buffer@, a.selection.head, q);
    &&& selects(a, b, if found is Some {
        Selection::cursor_spec(found->0)
    } else {
        a.selection
    })
    &&& found is Some ==> r == AppAction::Continue
    &&& found is None ==> shows(r, "Pattern not found: "@ + q)
}

/// What executing `cmd` on the state `a` does: `b` is the new state and `r`
/// what the caller has to do next.
pub open spec fn executed(cmd: Command, a: EditorState, b: EditorState, r: AppAction) -> bool {
    let ls = a.buffer@;
    let sel = a.selection;
    let h = sel.head;
    match cmd {
        Command::SaveFile => b == a && match a.file_path {
            Some(p) => r matches AppAction::WriteFile { path, contents } && path@ == p@ && contents@
                == join_lines(ls),
            None => shows(r, "Error saving: WriteFailed"@),
        },
        Command::SaveFileAs(p) => b == a && (r matches AppAction::WriteFile { path, contents } && path@
            == p@ && contents@ == join_lines(ls)),
        Command::OpenFile(p) => b == a && (r matches AppAction::ReadFile(path) && path@ == p@),
        Command::Quit => b == a && if a.dirty {
            shows(r, "Unsaved changes. Use :q! to force quit."@)
        } else {
            r == AppAction::Quit
        },
        Command::ForceQuit => b == a && r == AppAction::ForceQuit,
        Command::Undo => undone(a, b, a.undo_stack().len() > 0) && if a.undo_stack().len() > 0 {
            r == AppAction::Continue
        } else {
            shows(r, "Nothing to undo"@)
        },
        Command::Redo => redone(a, b, a.redo_stack().len() > 0) && if a.redo_stack().len() > 0 {
            r == AppAction::Continue
        } else {
            shows(r, "Nothing to redo"@)
        },
        Command::SearchForward(q) => searched_forward(a, b, q@, r),
        Command::SearchBackward(q) => searched_backward(a, b, q@, r),
        Command::SearchNext => searched_forward(
            if a.search_query@.len() > 0 {
                after_right(a)
            } else {
                a
            },
            b,
            a.search_query@,
            r,
        ),
        Command::SearchPrevious => searched_backward(
            if a.search_query@.len() > 0 {
                after_left(a)
            } else {
                a
            },
            b,
            a.search_query@,
            r,
        ),
        _ => r == AppAction::Continue && match cmd {
            Command::MoveLeft => selects(a, b, step_sel(sel, left_of(ls, h))),
            Command::MoveRight => selects(a, b, step_sel(sel, right_of(ls, h))),
            Command::MoveUp => selects(a, b, step_sel(sel, above(ls, h))),
            Command::MoveDown => selects(a, b, step_sel(sel, below(ls, h))),
            Command::PageUp => cursor_at(
                a,
                b,
                clamp_spec(ls, Position { line: sat_sub(h.line, 10), col: h.col }),
            ),
            Command::PageDown => cursor_at(
                a,
                b,
                clamp_spec(ls, Position { line: sat_add(h.line, 10), col: h.col }),
            ),
            Command::MoveWordForward => cursor_at(a, b, word_forward(ls, h)),
            Command::MoveWordBackward => cursor_at(a, b, word_backward(ls, h)),
            Command::MoveLineStart => cursor_at(a, b, clamp_spec(ls, Position { line: h.line, col: 0 })),
            Command::MoveLineEnd => cursor_at(
                a,
                b,
                clamp_spec(ls, Position { line: h.line, col: line_len_or0(ls, h.line) as usize }),
            ),
            Command::MoveFileStart => cursor_at(a, b, clamp_spec(ls, Position { line: 0, col: 0 })),
            Command::MoveFileEnd => cursor_at(
                a,
                b,
                clamp_spec(
                    ls,
                    Position {
                        line: (ls.len() - 1) as usize,
                        col: line_len_or0(ls, (ls.len() - 1) as usize) as usize,
                    },
                ),
            ),
            Command::ExtendSelectionLeft => selects(a, b, Selection { anchor: sel.anchor, head: left_of(ls, h) }),
            Command::ExtendSelectionRight => selects(a, b, Selection { anchor: sel.anchor, head: right_of(ls, h) }),
            Command::ExtendSelectionUp => selects(a, b, Selection { anchor: sel.anchor, head: above(ls, h) }),
            Command::ExtendSelectionDown => selects(a, b, Selection { anchor: sel.anchor, head: below(ls, h) }),
            Command::CollapseSelection => cursor_at(a, b, h),
            Command::VisualMode => cursor_at(a, b, h),
            Command::SelectLine => selects(a, b, line_selection(ls, h)),
            Command::JumpMatchingPair => match matching_col(ls, h) {
                Some(c) => cursor_at(a, b, Position { line: h.line, col: c as usize }),
                None => selects(a, b, sel),
            },
            Command::DeleteSelection => deleted(a, b),
            Command::ChangeSelection => b.mode == EditorMode::Insert && deleted(
                a,
                EditorState { mode: a.mode, ..b },
            ),
            Command::YankSelection => exists|t: Seq<char>| #[trigger] yanked(a, b, t),
            Command::PasteBefore => pasted(a, b, a.yank_buffer@),
            Command::PasteAfter => if a.yank_buffer@.len() == 0 {
                b == a
            } else {
                pasted(after_right(a), b, a.yank_buffer@)
            },
            Command::OpenLineAbove => opened_above(a, b),
            Command::OpenLineBelow => opened_below(a, b),
            Command::ToggleCase => case_toggled(a, b),
            Command::IndentSelection => indented(a, b),
            Command::UnindentSelection => unindented(a, b),
            Command::EnterNormalMode => b == (EditorState { mode: EditorMode::Normal, ..a }),
            Command::EnterInsertMode => b == (EditorState { mode: EditorMode::Insert, ..a }),
            Command::EnterSearchMode => b == (EditorState { mode: EditorMode::Search, ..a }),
            Command::EnterAppendMode => b.mode == EditorMode::Insert && b.selection
                == Selection::cursor_spec(append_pos(ls, h)) && same_but_selection_and_mode(a, b),
            Command::EnterCommandMode => b.command_buffer@.len() == 0 && b == (EditorState {
                mode: EditorMode::Command,
                command_buffer: b.command_buffer,
                ..a
            }),
            Command::SkkToggle => toggled_engine(a.skk_engine, b.skk_engine) && b == (EditorState {
                skk_engine: b.skk_engine,
                ..a
            }),
            _ => b == a,
        },
    }
}

fn pattern_not_found(query: &str) -> (m: String)
    ensures
        m@ == "Pattern not found: "@ + query@,
{
    let mut m = String::from_str("Pattern not found: ");
    m.append(query);
    m
}

/// The position typed text goes to: the cursor, or the start of a
/// selection.
fn target_of(sel: Selection) -> (p: Position)
    ensures
        p == insert_target(sel),
{
    if sel.is_empty() {
        sel.head
    } else {
        sel.sorted().0
    }
}

/// Types the yank buffer at the cursor when it is not empty and the result
/// is representable.
fn paste(state: &mut EditorState)
    requires
        old(state).wf(),
    ensures
        pasted(*old(state), *final(state), old(state).yank_buffer@),
        final(state).wf(),
{
    let text = state.yank_buffer.clone();
    if text.as_str().unicode_len() > 0 && insert_fits_exec(target_of(state.selection), text.as_str()) {
        let r = state.insert_at_cursor(text.as_str());
        proof {
            assert(typed(*old(state), *state, text@, r));
        }
    }
}

/// Executes a single editor command against the current state.
pub fn execute_command(cmd: Command, state: &mut EditorState) -> (r: AppAction)
    requires
        old(state).wf(),
    ensures
        executed(cmd, *old(state), *final(state), r),
        final(state).wf(),
{
    let ghost a = *state;
    match cmd {
        Command::MoveLeft => {
            if state.selection.is_empty() {
                state.move_cursor_left();
            } else {
                state.extend_selection_left();
            }
        },
        Command::MoveRight => {
            if state.selection.is_empty() {
                state.move_cursor_right();
            } else {
                state.extend_selection_right();
            }
        },
        Command::MoveUp => {
            if state.selection.is_empty() {
                state.move_cursor_up();
            } else {
                state.extend_selection_up();
            }
        },
        Command::MoveDown => {
            if state.selection.is_empty() {
                state.move_cursor_down();
            } else {
                state.extend_selection_down();
            }
        },
        Command::PageUp => state.page_up(10),
        Command::PageDown => state.page_down(10),
        Command::MoveWordForward => state.move_word_forward(),
        Command::MoveWordBackward => state.move_word_backward(),
        Command::MoveLineStart => {
            let line = state.selection.head.line;
            state.move_head_to(Position::new(line, 0));
        },
        Command::MoveLineEnd => {
            let line = state.selection.head.line;
            let len = match state.buffer.line_len(line) {
                Some(n) => n,
                None => 0,
            };
            state.move_head_to(Position::new(line, len));
        },
        Command::MoveFileStart => state.move_head_to(Position::new(0, 0)),
        Command::MoveFileEnd => {
            let count = state.buffer.line_count();
            let last_line = if count > 0 {
                count - 1
            } else {
                0
            };
            let len = match state.buffer.line_len(last_line) {
                Some(n) => n,
                None => 0,
            };
            state.move_head_to(Position::new(last_line, len));
        },
        Command::VisualMode => state.visual_mode(),
        Command::SelectLine => state.select_line(),
        Command::OpenLineAbove => state.open_line_above(),
        Command::OpenLineBelow => state.open_line_below(),
        Command::DeleteSelection => {
            if state.selection.is_empty() {
                state.delete_char();
            } else {
                state.delete_selection();
            }
        },
        Command::ChangeSelection => {
            if state.selection.is_empty() {
                state.delete_char();
            } else {
                state.delete_selection();
            }
            state.set_mode(EditorMode::Insert);
        },
        Command::YankSelection => {
            let t = state.yank_selection();
            proof {
                assert(yanked(a, *state, t@));
            }
        },
        Command::PasteBefore => paste(state),
        Command::PasteAfter => {
            if state.yank_buffer.as_str().unicode_len() > 0 {
                state.move_cursor_right();
                paste(state);
            }
        },
        Command::ToggleCase => state.toggle_case(),
        Command::IndentSelection => state.indent_selection(),
        Command::UnindentSelection => state.unindent_selection(),
        Command::JumpMatchingPair => state.jump_matching_pair(),
        Command::EnterNormalMode => state.set_mode(EditorMode::Normal),
        Command::EnterInsertMode => state.set_mode(EditorMode::Insert),
        Command::EnterAppendMode => state.enter_append_mode(),
        Command::EnterCommandMode => {
            state.command_buffer = String::new();
            state.set_mode(EditorMode::Command);
        },
        Command::EnterSearchMode => state.set_mode(EditorMode::Search),
        Command::SaveFile => {
            return match &state.file_path {
                Some(p) => AppAction::WriteFile { path: p.clone(), contents: state.buffer.to_string() },
                None => AppAction::ShowMessage("Error saving: WriteFailed".to_string()),
            };
        },
        Command::SaveFileAs(path) => {
            return AppAction::WriteFile { path, contents: state.buffer.to_string() };
        },
        Command::OpenFile(path) => {
            return AppAction::ReadFile(path);
        },
        Command::Quit => {
            if state.dirty {
                return AppAction::ShowMessage("Unsaved changes. Use :q! to force quit.".to_string());
            }
            return AppAction::Quit;
        },
        Command::ForceQuit => return AppAction::ForceQuit,
        Command::Undo => {
            if !state.undo() {
                return AppAction::ShowMessage("Nothing to undo".to_string());
            }
        },
        Command::Redo => {
            if !state.redo() {
                return AppAction::ShowMessage("Nothing to redo".to_string());
            }
        },
        Command::SearchForward(query) => {
            if !state.search_forward(query.as_str()) {
                return AppAction::ShowMessage(pattern_not_found(query.as_str()));
            }
        },
        Command::SearchBackward(query) => {
            if !state.search_backward(query.as_str()) {
                return AppAction::ShowMessage(pattern_not_found(query.as_str()));
            }
        },
        Command::SearchNext => {
            let query = state.search_query.clone();
            if query.as_str().unicode_len() > 0 {
                state.move_cursor_right();
            }
            if !state.search_forward(query.as_str()) {
                return AppAction::ShowMessage(pattern_not_found(query.as_str()));
            }
        },
        Command::SearchPrevious => {
            let query = state.search_query.clone();
            if query.as_str().unicode_len() > 0 {
                state.move_cursor_left();
            }
            if !state.search_backward(query.as_str()) {
                return AppAction::ShowMessage(pattern_not_found(query.as_str()));
            }
        },
        Command::ExtendSelectionLeft => state.extend_selection_left(),
        Command::ExtendSelectionRight => state.extend_selection_right(),
        Command::ExtendSelectionUp => state.extend_selection_up(),
        Command::ExtendSelectionDown => state.extend_selection_down(),
        Command::CollapseSelection => state.collapse_selection(),
        Command::SkkToggle => {
            state.skk_engine.toggle();
        },
        _ => {},
    }
    AppAction::Continue
}

/// The editor application apart from the terminal: the state, the screen
/// layout, the command table and the settings. It takes input events and
/// hands file work back to its caller.
pub struct App {
    pub state: EditorState,
    pub renderer: Renderer,
    pub registry: CommandRegistry,
    pub should_quit: bool,
    pub keymap: Keymap,
    pub config: Config,
    /// A `wq` waits for its write before quitting.
    pub quit_after_write: bool,
}

/// `b` is the app `a` with the editor state `s`.
pub open spec fn with_state(a: App, s: EditorState) -> App {
    App { state: s, ..a }
}

/// `b` and `r` are what the app `a` makes of the action `act` that left the
/// editor state `s1`: quitting sets the flag, a message is shown, file
/// work is handed on.
pub open spec fn applied(a: App, s1: EditorState, act: AppAction, b: App, r: AppAction) -> bool {
    match act {
        AppAction::Continue => b == with_state(a, s1) && r == AppAction::Continue,
        AppAction::Quit => b == (App { should_quit: true, ..with_state(a, s1) }) && r == AppAction::Continue,
        AppAction::ForceQuit => b == (App { should_quit: true, ..with_state(a, s1) }) && r
            == AppAction::Continue,
        AppAction::ShowMessage(m) => b == with_state(a, EditorState { message: Some(m), ..s1 }) && r
            == AppAction::Continue,
        _ => b == with_state(a, s1) && r == act,
    }
}

/// `b` and `r` are what running `cmd` in the app `a` gives.
pub open spec fn ran(a: App, b: App, cmd: Command, r: AppAction) -> bool {
    exists|s1: EditorState, act: AppAction| #[trigger] executed(cmd, a.state, s1, act) && applied(a, s1, act, b, r)
}

/// `b` is `a` showing the message `m`.
pub open spec fn noted(a: App, b: App, m: Seq<char>) -> bool {
    b.state.message matches Some(x) && x@ == m && b == with_state(
        a,
        EditorState { message: b.state.message, ..a.state },
    )
}

/// What the command line `line` (`:` already dropped) does: `w`/`write`
/// saves (to the argument, if given), `q`/`quit` and `q!`/`force-quit`
/// quit, `wq` saves and then quits, `open` opens its argument, `undo` and
/// `redo` undo and redo; anything else is reported as unknown.
pub open spec fn line_run(a: App, b: App, line: Seq<char>, r: AppAction) -> bool {
    let k = first_space(line, 0);
    let name = line.subrange(0, k);
    let arg = if k < line.len() {
        Some(line.subrange(k + 1, line.len() as int))
    } else {
        None::<Seq<char>>
    };
    if name == "w"@ || name == "write"@ {
        match arg {
            Some(p) => exists|c: Command| #[trigger] ran(a, b, c, r) && (c matches Command::SaveFileAs(x) && x@ == p),
            None => ran(a, b, Command::SaveFile, r),
        }
    } else if name == "q"@ || name == "quit"@ {
        ran(a, b, Command::Quit, r)
    } else if name == "q!"@ || name == "force-quit"@ {
        ran(a, b, Command::ForceQuit, r)
    } else if name == "wq"@ {
        exists|m: App, r1: AppAction| #[trigger] ran(a, m, Command::SaveFile, r1) && if r1 is WriteFile {
            b == (App { quit_after_write: true, ..m }) && r == r1
        } else {
            ran(m, b, Command::Quit, r)
        }
    } else if name == "open"@ {
        match arg {
            Some(p) => exists|c: Command| #[trigger] ran(a, b, c, r) && (c matches Command::OpenFile(x) && x@ == p),
            None => noted(a, b, "open requires a path"@) && r == AppAction::Continue,
        }
    } else if name == "undo"@ {
        ran(a, b, Command::Undo, r)
    } else if name == "redo"@ {
        ran(a, b, Command::Redo, r)
    } else {
        noted(a, b, "Unknown command: "@ + name) && r == AppAction::Continue
    }
}

/// `t` with its last character dropped (empty stays empty).
pub open spec fn drop_last_char(t: Seq<char>) -> Seq<char> {
    if t.len() == 0 {
        t
    } else {
        t.drop_last()
    }
}

/// Kana input is active: enabled and not in direct mode.
pub open spec fn kana_active(s: EditorState) -> bool {
    s.skk_enabled && s.skk_engine.state != SkkState::Direct
}

/// A conversion is under way whose current candidate is missing.
pub open spec fn candidate_missing(s: EditorState) -> bool {
    s.skk_engine.state == SkkState::Converting && s.skk_engine.candidate_index
        >= s.skk_engine.candidates@.len()
}

/// `b` is `a` after typing `t` at the cursor, or `a` itself when the result
/// would not be representable.
pub open spec fn typed_or_kept(a: EditorState, b: EditorState, t: Seq<char>) -> bool {
    if insert_fits(insert_target(a.selection), t) {
        exists|r: Position| #[trigger] typed(a, b, t, r)
    } else {
        b == a
    }
}

/// `b` is `a` after the kana engine's action `act`: text is typed, a
/// conversion replaces its reading before the cursor (when the reading is
/// there) by the candidate.
pub open spec fn skk_applied(a: EditorState, b: EditorState, act: SkkAction) -> bool {
    match act {
        SkkAction::Insert(t) => typed_or_kept(a, b, t@),
        SkkAction::Convert { reading, candidate } => {
            let h = a.selection.head;
            let n = reading@.len();
            if n > 0 && h.col >= n {
                let sel = Selection { anchor: Position { line: h.line, col: (h.col - n) as usize }, head: h };
                exists|m: EditorState|
                    #[trigger] range_deleted(
                        EditorState { selection: sel, ..a },
                        m,
                        sel.anchor,
                        h,
                        deleted_spec(a.buffer@, sel.anchor, h),
                    ) && typed_or_kept(m, b, candidate@)
            } else {
                typed_or_kept(a, b, candidate@)
            }
        },
        _ => b == a,
    }
}

impl App {
    /// The app's state between events: the editor state is well formed.
    pub open spec fn wf(&self) -> bool {
        self.state.wf()
    }

    /// A fresh app for a `cols` by `rows` screen with the settings `config`.
    pub fn new(cols: usize, rows: usize, config: Config) -> (app: Self)
        ensures
            app.wf(),
            fresh_state(app.state),
            app.state.skk_enabled == config.skk_enabled,
            standard_table(app.registry.table()),
            app.state.message is None,
            app.renderer == Renderer::new_spec(cols, rows, config.tab_width),
            !app.should_quit,
            !app.quit_after_write,
            app.config == config,
    {
        let mut state = EditorState::new();
        state.skk_enabled = config.skk_enabled;
        let renderer = Renderer::new(cols, rows, config.tab_width, false, false);
        App {
            state,
            renderer,
            registry: CommandRegistry::new(),
            should_quit: false,
            keymap: Keymap,
            config,
            quit_after_write: false,
        }
    }
}


/// `b` is `a` with the command line emptied and normal mode back.
pub open spec fn line_closed(a: App, b: App) -> bool {
    &&& b.state.command_buffer@.len() == 0
    &&& b == with_state(
        a,
        EditorState { command_buffer: b.state.command_buffer, mode: EditorMode::Normal, ..a.state },
    )
}

/// `b` is `a` with the search query emptied and normal mode back.
pub open spec fn query_closed(a: App, b: App) -> bool {
    &&& b.state.search_query@.len() == 0
    &&& b == with_state(
        a,
        EditorState { search_query: b.state.search_query, mode: EditorMode::Normal, ..a.state },
    )
}

/// `b` is `a` with the command line turned into `t`.
pub open spec fn line_edited(a: App, b: App, t: Seq<char>) -> bool {
    b.state.command_buffer@ == t && b == with_state(
        a,
        EditorState { command_buffer: b.state.command_buffer, ..a.state },
    )
}

/// `b` is `a` with the search query turned into `t`.
pub open spec fn query_edited(a: App, b: App, t: Seq<char>) -> bool {
    b.state.search_query@ == t && b == with_state(
        a,
        EditorState { search_query: b.state.search_query, ..a.state },
    )
}

/// What an event does on the command line: Escape leaves it, Enter runs
/// it, Backspace drops its last character, text is appended.
pub open spec fn command_key(a: App, b: App, input: InputEvent, r: AppAction) -> bool {
    match input {
        InputEvent::Key { code: KeyCode::Escape, .. } => line_closed(a, b) && r == AppAction::Continue,
        InputEvent::Key { code: KeyCode::Enter, .. } => exists|m: App|
            #[trigger] line_closed(a, m) && line_run(m, b, a.state.command_buffer@, r),
        InputEvent::Key { code: KeyCode::Backspace, .. } => line_edited(
            a,
            b,
            drop_last_char(a.state.command_buffer@),
        ) && r == AppAction::Continue,
        InputEvent::Text(t) => line_edited(a, b, a.state.command_buffer@ + t@) && r == AppAction::Continue,
        InputEvent::Paste(t) => line_edited(a, b, a.state.command_buffer@ + t@) && r == AppAction::Continue,
        _ => b == a && r == AppAction::Continue,
    }
}

/// What an event does on the search line: Escape leaves it, Enter
/// searches forward (a miss is shown), Backspace drops the last
/// character, text is appended.
pub open spec fn search_key(a: App, b: App, input: InputEvent, r: AppAction) -> bool {
    &&& r == AppAction::Continue
    &&& match input {
        InputEvent::Key { code: KeyCode::Escape, .. } => query_closed(a, b),
        InputEvent::Key { code: KeyCode::Enter, .. } => exists|m: App, s1: EditorState, act: AppAction|
            #![trigger query_closed(a, m), searched_forward(m.state, s1, a.state.search_query@, act)]
            query_closed(a, m) && searched_forward(m.state, s1, a.state.search_query@, act) && applied(
                m,
                s1,
                act,
                b,
                AppAction::Continue,
            ),
        InputEvent::Key { code: KeyCode::Backspace, .. } => query_edited(
            a,
            b,
            drop_last_char(a.state.search_query@),
        ),
        InputEvent::Text(t) => query_edited(a, b, a.state.search_query@ + t@),
        InputEvent::Paste(t) => query_edited(a, b, a.state.search_query@ + t@),
        _ => b == a,
    }
}


/// State `b` is `a` after the kana engine took the typed character `ch`
/// and its answer was carried out; while converting without a current
/// candidate, anything but a space is ignored.
pub open spec fn kana_char_fed(a: EditorState, b: EditorState, ch: char) -> bool {
    let e = a.skk_engine;
    if e.state == SkkState::Converting && ch != ' ' && e.candidate_index >= e.candidates@.len() {
        b == a
    } else {
        exists|e2: SkkEngine, act: SkkAction|
            #[trigger] char_processed(e, e2, ch, act) && skk_applied(
                EditorState { skk_engine: e2, ..a },
                b,
                act,
            )
    }
}

/// State `b` is `a` after the kana engine took the characters `cs` one
/// after another: a chain of states leads from `a` to `b`, each step
/// feeding one character.
pub open spec fn kana_fed(a: EditorState, b: EditorState, cs: Seq<char>) -> bool {
    exists|ss: Seq<EditorState>| #[trigger] kana_chain(ss, a, b, cs)
}

/// `ss` is a chain of states from `a` to `b` that feeds `cs` one character
/// at a time.
pub open spec fn kana_chain(ss: Seq<EditorState>, a: EditorState, b: EditorState, cs: Seq<char>) -> bool {
    &&& ss.len() == cs.len() + 1
    &&& ss[0] == a
    &&& ss.last() == b
    &&& forall|i: int| 0 <= i < cs.len() ==> #[trigger] kana_char_fed(ss[i], ss[i + 1], cs[i])
}

/// What an event does in insert mode: Escape returns to normal mode,
/// Ctrl-J toggles kana input, Backspace and Delete delete (Backspace
/// cancels pending kana input instead), Enter and Tab type a line break
/// and a tab (Enter commits a conversion instead), text is typed or, with
/// kana input active, fed to the kana engine.
pub open spec fn insert_key(a: App, b: App, input: InputEvent) -> bool {
    let s = a.state;
    let h = s.selection.head;
    match input {
        InputEvent::Key { code, modifiers } => match code {
            KeyCode::Escape => b == with_state(a, EditorState { mode: EditorMode::Normal, ..s }),
            KeyCode::Char(c) => if c == 'j' && modifiers.ctrl {
                toggled_engine(s.skk_engine, b.state.skk_engine) && b == with_state(
                    a,
                    EditorState { skk_engine: b.state.skk_engine, ..s },
                )
            } else {
                b == a
            },
            KeyCode::Backspace => if kana_active(s) {
                exists|e2: SkkEngine, act: SkkAction|
                    #[trigger] cancelled(s.skk_engine, e2, act) && skk_applied(
                        EditorState { skk_engine: e2, ..s },
                        b.state,
                        act,
                    ) && b == with_state(a, b.state)
            } else if h.col > 0 || h.line > 0 {
                char_deleted(after_left(s), b.state) && b == with_state(a, b.state)
            } else {
                b == a
            },
            KeyCode::Delete => char_deleted(s, b.state) && b == with_state(a, b.state),
            KeyCode::Enter => if kana_active(s) {
                if candidate_missing(s) && s.skk_engine.candidates@.len() > 0 {
                    b == a
                } else {
                    exists|e2: SkkEngine, act: SkkAction|
                        #[trigger] confirmed(s.skk_engine, e2, act) && skk_applied(
                            EditorState { skk_engine: e2, ..s },
                            b.state,
                            act,
                        ) && b == with_state(a, b.state)
                }
            } else {
                typed_or_kept(s, b.state, seq!['\n']) && b == with_state(a, b.state)
            },
            KeyCode::Tab => typed_or_kept(s, b.state, seq!['\t']) && b == with_state(a, b.state),
            _ => b == a,
        },
        InputEvent::Text(t) => if kana_active(s) {
            kana_fed(s, b.state, t@) && b == with_state(a, b.state)
        } else {
            typed_or_kept(s, b.state, t@) && b == with_state(a, b.state)
        },
        InputEvent::Paste(t) => if kana_active(s) {
            kana_fed(s, b.state, t@) && b == with_state(a, b.state)
        } else {
            typed_or_kept(s, b.state, t@) && b == with_state(a, b.state)
        },
        _ => b == a,
    }
}


/// What an input event does: a resize lays the screen out anew; otherwise
/// the event goes to the current mode (normal mode maps it to a command).
pub open spec fn event_handled(a: App, b: App, input: InputEvent, r: AppAction) -> bool {
    match input {
        InputEvent::Resize { rows, cols } => b == (App {
            renderer: Renderer::new_spec(cols as usize, rows as usize, a.config.tab_width),
            ..a
        }) && r == AppAction::Continue,
        _ => match a.state.mode {
            EditorMode::Insert => insert_key(a, b, input) && r == AppAction::Continue,
            EditorMode::Command => command_key(a, b, input, r),
            EditorMode::Search => search_key(a, b, input, r),
            EditorMode::Normal => match binding(input, EditorMode::Normal) {
                Some(cmd) => ran(a, b, cmd, r),
                None => b == a && r == AppAction::Continue,
            },
        },
    }
}

/// The message that reports a write's outcome.
pub open spec fn write_message(written: Result<(), FileError>) -> Seq<char> {
    match written {
        Ok(_) => "Saved"@,
        Err(e) => "Error saving: "@ + file_error_name(e),
    }
}

/// `b` and `r` are what the app `a` makes of the outcome of writing its
/// text to `path`: the outcome is shown and, on success, `path` is the
/// current file and the text unmodified; then a pending `wq` quits.
pub open spec fn write_reported(a: App, b: App, path: Seq<char>, written: Result<(), FileError>, r: AppAction) -> bool {
    exists|m: App|
        {
            &&& #[trigger] m.state.message matches Some(x) && x@ == write_message(written)
            &&& written is Ok ==> (m.state.file_path matches Some(p) && p@ == path) && !m.state.dirty
            &&& written is Err ==> m.state.file_path == a.state.file_path && m.state.dirty == a.state.dirty
            &&& m == (App {
                quit_after_write: false,
                state: EditorState {
                    message: m.state.message,
                    file_path: m.state.file_path,
                    dirty: m.state.dirty,
                    ..a.state
                },
                ..a
            })
            &&& a.quit_after_write ==> ran(m, b, Command::Quit, r)
            &&& !a.quit_after_write ==> b == m && r == AppAction::Continue
        }
}

/// `s` without its last character.
fn without_last(s: &String) -> (r: String)
    ensures
        r@ == drop_last_char(s@),
{
    let cs = to_chars(s.as_str());
    if cs.len() == 0 {
        String::new()
    } else {
        proof {
            assert(cs@.subrange(0, cs@.len() - 1) =~= cs@.drop_last());
        }
        string_of(&cs, 0, cs.len() - 1)
    }
}

/// `a` followed by `b`.
fn concat(a: &str, b: &str) -> (r: String)
    ensures
        r@ == a@ + b@,
{
    let mut r = String::from_str(a);
    r.append(b);
    r
}

impl App {
    /// Runs a command: the editor executes it, quitting sets the flag, a
    /// message is shown, and file work is handed back.
    pub fn run_command(&mut self, cmd: Command) -> (r: AppAction)
        requires
            old(self).wf(),
        ensures
            final(self).wf(),
            ran(*old(self), *final(self), cmd, r),
    {
        let ghost a = *self;
        let ghost c = cmd;
        let act = execute_command(cmd, &mut self.state);
        let ghost s1 = self.state;
        let ghost act0 = act;
        let r = match act {
            AppAction::Continue => AppAction::Continue,
            AppAction::Quit => {
                self.should_quit = true;
                AppAction::Continue
            },
            AppAction::ForceQuit => {
                self.should_quit = true;
                AppAction::Continue
            },
            AppAction::ShowMessage(m) => {
                self.state.message = Some(m);
                AppAction::Continue
            },
            other => other,
        };
        proof {
            assert(executed(c, a.state, s1, act0) && applied(a, s1, act0, *self, r));
        }
        r
    }

    /// Runs a command line typed after `:` (see `line_run`).
    pub fn execute_command_line(&mut self, cmd_str: &str) -> (r: AppAction)
        requires
            old(self).wf(),
        ensures
            final(self).wf(),
            line_run(*old(self), *final(self), cmd_str@, r),
    {
        let cs = to_chars(cmd_str);
        let n = cs.len();
        let mut k: usize = 0;
        while k < n && cs[k] != ' '
            invariant
                k <= n == cs@.len(),
                first_space(cs@, k as int) == first_space(cs@, 0),
            decreases n - k,
        {
            k = k + 1;
        }
        proof {
            assert(first_space(cs@, k as int) == k);
        }
        let name = string_of(&cs, 0, k);
        let arg: Option<String> = if k < n {
            Some(string_of(&cs, k + 1, n))
        } else {
            None
        };
        let nm = name.as_str();
        if str_eq(nm, "w") || str_eq(nm, "write") {
            match arg {
                Some(p) => {
                    let ghost c = Command::SaveFileAs(p);
                    let r = self.run_command(Command::SaveFileAs(p));
                    proof {
                        assert(ran(*old(self), *self, c, r));
                    }
                    r
                },
                None => self.run_command(Command::SaveFile),
            }
        } else if str_eq(nm, "q") || str_eq(nm, "quit") {
            self.run_command(Command::Quit)
        } else if str_eq(nm, "q!") || str_eq(nm, "force-quit") {
            self.run_command(Command::ForceQuit)
        } else if str_eq(nm, "wq") {
            let r1 = self.run_command(Command::SaveFile);
            let ghost m = *self;
            if let AppAction::WriteFile { .. } = r1 {
                self.quit_after_write = true;
                proof {
                    assert(ran(*old(self), m, Command::SaveFile, r1));
                }
                r1
            } else {
                let r = self.run_command(Command::Quit);
                proof {
                    assert(ran(*old(self), m, Command::SaveFile, r1));
                }
                r
            }
        } else if str_eq(nm, "open") {
            match arg {
                Some(p) => {
                    let ghost c = Command::OpenFile(p);
                    let r = self.run_command(Command::OpenFile(p));
                    proof {
                        assert(ran(*old(self), *self, c, r));
                    }
                    r
                },
                None => {
                    self.state.message = Some("open requires a path".to_string());
                    AppAction::Continue
                },
            }
        } else if str_eq(nm, "undo") {
            self.run_command(Command::Undo)
        } else if str_eq(nm, "redo") {
            self.run_command(Command::Redo)
        } else {
            self.state.message = Some(concat("Unknown command: ", nm));
            AppAction::Continue
        }
    }
}

impl App {
    /// Handles an event while the command line is open (see
    /// `command_key`).
    pub fn handle_command_mode(&mut self, input: &InputEvent) -> (r: AppAction)
        requires
            old(self).wf(),
        ensures
            final(self).wf(),
            command_key(*old(self), *final(self), *input, r),
    {
        match input {
            InputEvent::Key { code: KeyCode::Escape, .. } => {
                self.state.command_buffer = String::new();
                self.state.mode = EditorMode::Normal;
                AppAction::Continue
            },
            InputEvent::Key { code: KeyCode::Enter, .. } => {
                let cmd_str = self.state.command_buffer.clone();
                self.state.command_buffer = String::new();
                self.state.mode = EditorMode::Normal;
                let ghost m = *self;
                let r = self.execute_command_line(cmd_str.as_str());
                proof {
                    assert(line_closed(*old(self), m));
                }
                r
            },
            InputEvent::Key { code: KeyCode::Backspace, .. } => {
                self.state.command_buffer = without_last(&self.state.command_buffer);
                AppAction::Continue
            },
            InputEvent::Text(text) => {
                push_all(&mut self.state.command_buffer, text.as_str());
                AppAction::Continue
            },
            InputEvent::Paste(text) => {
                push_all(&mut self.state.command_buffer, text.as_str());
                AppAction::Continue
            },
            _ => AppAction::Continue,
        }
    }

    /// Handles an event while a search query is being typed (see
    /// `search_key`).
    pub fn handle_search_mode(&mut self, input: &InputEvent) -> (r: AppAction)
        requires
            old(self).wf(),
        ensures
            final(self).wf(),
            search_key(*old(self), *final(self), *input, r),
    {
        match input {
            InputEvent::Key { code: KeyCode::Escape, .. } => {
                self.state.search_query = String::new();
                self.state.mode = EditorMode::Normal;
            },
            InputEvent::Key { code: KeyCode::Enter, .. } => {
                let query = self.state.search_query.clone();
                self.state.search_query = String::new();
                self.state.mode = EditorMode::Normal;
                let ghost m = *self;
                let found = self.state.search_forward(query.as_str());
                let ghost s1 = self.state;
                if !found {
                    let msg = concat("Pattern not found: ", query.as_str());
                    let ghost act = AppAction::ShowMessage(msg);
                    self.state.message = Some(msg);
                    proof {
                        assert(query_closed(*old(self), m));
                        assert(searched_forward(m.state, s1, query@, act));
                        assert(applied(m, s1, act, *self, AppAction::Continue));
                    }
                } else {
                    proof {
                        assert(query_closed(*old(self), m));
                        assert(searched_forward(m.state, s1, query@, AppAction::Continue));
                        assert(applied(m, s1, AppAction::Continue, *self, AppAction::Continue));
                    }
                }
            },
            InputEvent::Key { code: KeyCode::Backspace, .. } => {
                self.state.search_query = without_last(&self.state.search_query);
            },
            InputEvent::Text(text) => {
                push_all(&mut self.state.search_query, text.as_str());
            },
            InputEvent::Paste(text) => {
                push_all(&mut self.state.search_query, text.as_str());
            },
            _ => {},
        }
        AppAction::Continue
    }
}

impl App {
    /// Types `t` at the cursor when the result is representable.
    fn type_text(&mut self, t: &str)
        requires
            old(self).wf(),
        ensures
            final(self).wf(),
            typed_or_kept(old(self).state, final(self).state, t@),
            *final(self) == with_state(*old(self), final(self).state),
    {
        let target = target_of(self.state.selection);
        if insert_fits_exec(target, t) {
            let r = self.state.insert_at_cursor(t);
            proof {
                assert(typed(old(self).state, self.state, t@, r));
            }
        }
    }

    /// Carries out what the kana engine asked for (see `skk_applied`).
    pub fn apply_skk_action(&mut self, action: SkkAction)
        requires
            old(self).wf(),
        ensures
            final(self).wf(),
            skk_applied(old(self).state, final(self).state, action),
            *final(self) == with_state(*old(self), final(self).state),
    {
        match action {
            SkkAction::Insert(text) => self.type_text(text.as_str()),
            SkkAction::Convert { reading, candidate } => {
                let head = self.state.selection.head;
                let n = to_chars(reading.as_str()).len();
                if n > 0 && head.col >= n {
                    let start = Position::new(head.line, head.col - n);
                    self.state.selection = Selection::new(start, head);
                    let ghost s0 = self.state;
                    self.state.delete_selection();
                    let ghost m = self.state;
                    self.type_text(candidate.as_str());
                    proof {
                        assert(range_deleted(s0, m, start, head, deleted_spec(s0.buffer@, start, head)));
                    }
                } else {
                    self.type_text(candidate.as_str());
                }
            },
            _ => {},
        }
    }

    /// Feeds one typed character to the kana engine and carries out its
    /// answer; while converting without a current candidate only a space
    /// is taken.
    fn kana_char(&mut self, ch: char)
        requires
            old(self).wf(),
        ensures
            final(self).wf(),
            kana_char_fed(old(self).state, final(self).state, ch),
            *final(self) == with_state(*old(self), final(self).state),
    {
        let e = &self.state.skk_engine;
        if e.state == SkkState::Converting && ch != ' ' && e.candidate_index >= e.candidates.len() {
            return;
        }
        let ghost s = self.state;
        let action = self.state.skk_engine.process_char(ch);
        let ghost e2 = self.state.skk_engine;
        let ghost act = action;
        self.apply_skk_action(action);
        proof {
            assert(char_processed(s.skk_engine, e2, ch, act));
        }
    }

    /// Handles an event in insert mode (see `insert_key`).
    pub fn handle_insert_mode(&mut self, input: &InputEvent)
        requires
            old(self).wf(),
        ensures
            final(self).wf(),
            insert_key(*old(self), *final(self), *input),
    {
        let kana = self.state.skk_enabled && self.state.skk_engine.state != SkkState::Direct;
        match input {
            InputEvent::Key { code, modifiers } => match code {
                KeyCode::Escape => {
                    self.state.mode = EditorMode::Normal;
                },
                KeyCode::Char(c) => {
                    if *c == 'j' && modifiers.ctrl {
                        self.state.skk_engine.toggle();
                    }
                },
                KeyCode::Backspace => {
                    if kana {
                        let ghost s = self.state;
                        let action = self.state.skk_engine.cancel();
                        let ghost e2 = self.state.skk_engine;
                        let ghost act = action;
                        self.apply_skk_action(action);
                        proof {
                            assert(cancelled(s.skk_engine, e2, act));
                        }
                    } else if self.state.selection.head.col > 0 || self.state.selection.head.line > 0 {
                        self.state.move_cursor_left();
                        self.state.delete_char();
                    }
                },
                KeyCode::Delete => {
                    self.state.delete_char();
                },
                KeyCode::Enter => {
                    if kana {
                        let e = &self.state.skk_engine;
                        if e.state == SkkState::Converting && e.candidates.len() > 0
                            && e.candidate_index >= e.candidates.len() {
                            return;
                        }
                        let ghost s = self.state;
                        let action = self.state.skk_engine.confirm();
                        let ghost e2 = self.state.skk_engine;
                        let ghost act = action;
                        self.apply_skk_action(action);
                        proof {
                            assert(confirmed(s.skk_engine, e2, act));
                        }
                    } else {
                        let nl = "\n";
                        proof {
                            reveal_strlit("\n");
                            assert(nl@ =~= seq!['\n']);
                        }
                        self.type_text(nl);
                    }
                },
                KeyCode::Tab => {
                    let tab = "\t";
                    proof {
                        reveal_strlit("\t");
                        assert(tab@ =~= seq!['\t']);
                    }
                    self.type_text(tab);
                },
                _ => {},
            },
            InputEvent::Text(text) => {
                if kana {
                    self.kana_text(text.as_str());
                } else {
                    self.type_text(text.as_str());
                }
            },
            InputEvent::Paste(text) => {
                if kana {
                    self.kana_text(text.as_str());
                } else {
                    self.type_text(text.as_str());
                }
            },
            _ => {},
        }
    }

    /// Feeds every character of `t` to the kana engine in turn.
    fn kana_text(&mut self, t: &str)
        requires
            old(self).wf(),
        ensures
            final(self).wf(),
            kana_fed(old(self).state, final(self).state, t@),
            *final(self) == with_state(*old(self), final(self).state),
    {
        let cs = to_chars(t);
        let mut i: usize = 0;
        let ghost s0 = self.state;
        let ghost mut ss: Seq<EditorState> = seq![s0];
        while i < cs.len()
            invariant
                i <= cs@.len(),
                cs@ == t@,
                s0 == old(self).state,
                self.wf(),
                kana_chain(ss, s0, self.state, cs@.take(i as int)),
                *self == with_state(*old(self), self.state),
            decreases cs@.len() - i,
        {
            self.kana_char(cs[i]);
            proof {
                let p = cs@.take(i + 1);
                let ss2 = ss.push(self.state);
                assert forall|k: int| 0 <= k < p.len() implies #[trigger] kana_char_fed(ss2[k], ss2[k + 1], p[k]) by {
                    if k < i {
                        assert(p[k] == cs@.take(i as int)[k]);
                    }
                }
                assert(kana_chain(ss2, s0, self.state, p));
                ss = ss2;
            }
            i = i + 1;
        }
        proof {
            assert(cs@.take(cs@.len() as int) =~= cs@);
            assert(kana_chain(ss, s0, self.state, t@));
        }
    }
}

impl App {
    /// Handles one input event (see `event_handled`); what comes back asks
    /// for file work, for quitting, or for nothing.
    pub fn handle_event(&mut self, input: InputEvent) -> (r: AppAction)
        requires
            old(self).wf(),
        ensures
            final(self).wf(),
            event_handled(*old(self), *final(self), input, r),
    {
        match input {
            InputEvent::Resize { rows, cols } => {
                self.renderer = Renderer::new(cols as usize, rows as usize, self.config.tab_width, false, false);
                AppAction::Continue
            },
            _ => match self.state.mode {
                EditorMode::Insert => {
                    self.handle_insert_mode(&input);
                    AppAction::Continue
                },
                EditorMode::Command => self.handle_command_mode(&input),
                EditorMode::Search => self.handle_search_mode(&input),
                EditorMode::Normal => match Keymap::handle(&input, EditorMode::Normal) {
                    Some(cmd) => self.run_command(cmd),
                    None => AppAction::Continue,
                },
            },
        }
    }

    /// Takes the outcome of writing the text to `path` (see
    /// `write_reported`).
    pub fn finish_write(&mut self, path: &str, written: Result<(), FileError>) -> (r: AppAction)
        requires
            old(self).wf(),
        ensures
            final(self).wf(),
            write_reported(*old(self), *final(self), path@, written, r),
    {
        let res = self.state.save_file_as(path, written);
        let msg = match res {
            Ok(()) => "Saved".to_string(),
            Err(e) => concat("Error saving: ", e.name()),
        };
        self.state.message = Some(msg);
        let pending = self.quit_after_write;
        self.quit_after_write = false;
        let ghost m = *self;
        if pending {
            let r = self.run_command(Command::Quit);
            proof {
                assert(m.state.message matches Some(x) && x@ == write_message(written));
            }
            r
        } else {
            proof {
                assert(m.state.message matches Some(x) && x@ == write_message(written));
            }
            AppAction::Continue
        }
    }

    /// Takes the outcome of reading the file at `path`: its text is
    /// opened, or the failure is shown.
    pub fn finish_read(&mut self, path: &str, read: Result<String, FileError>) -> (r: AppAction)
        requires
            old(self).wf(),
        ensures
            final(self).wf(),
            r == AppAction::Continue,
            match read {
                Ok(text) => opened(old(self).state, final(self).state, path@, text@) && *final(self)
                    == with_state(*old(self), final(self).state),
                Err(e) => noted(*old(self), *final(self), "Error opening file: "@ + file_error_name(e)),
            },
    {
        match self.state.open_file(path, read) {
            Ok(()) => {},
            Err(e) => {
                self.state.message = Some(concat("Error opening file: ", e.name()));
            },
        }
        AppAction::Continue
    }

    /// Takes the outcome of reading a kana dictionary (the system one, or
    /// the user's): its entries are added, replacing those for the same
    /// readings, or the failure is shown.
    pub fn load_dictionary(&mut self, system: bool, read: Result<String, String>)
        requires
            old(self).wf(),
        ensures
            final(self).wf(),
            match read {
                Ok(text) => final(self).state.skk_engine.dict@ == old(self).state.skk_engine.dict@.union_prefer_right(
                    load_text(Map::empty(), text@),
                ) && *final(self) == with_state(*old(self), final(self).state) && final(self).state == (EditorState {
                    skk_engine: final(self).state.skk_engine,
                    ..old(self).state
                }),
                Err(e) => noted(
                    *old(self),
                    *final(self),
                    (if system {
                        "SKK system dictionary load failed: "@
                    } else {
                        "SKK user dictionary load failed: "@
                    }) + e@,
                ),
            },
    {
        match read {
            Ok(text) => {
                if system {
                    self.state.skk_engine.load_system_dictionary(text.as_str());
                } else {
                    self.state.skk_engine.load_user_dictionary(text.as_str());
                }
            },
            Err(e) => {
                let prefix = if system {
                    "SKK system dictionary load failed: "
                } else {
                    "SKK user dictionary load failed: "
                };
                self.state.message = Some(concat(prefix, e.as_str()));
            },
        }
    }
}

} // verus!
