use dim::app::{execute_command, AppAction};
use dim::buffer::LineBuffer;
use dim::command::Command;
use dim::editor_state::{EditorMode, EditorState};
use dim::position::Position;
use dim::selection::Selection;
use dim::skk::SkkState;

#[test]
fn test_execute_move_left() {
    let mut state = EditorState::new();
    state.buffer = LineBuffer::from_str("ab");
    state.selection = Selection::cursor(Position::new(0, 1));
    let action = execute_command(Command::MoveLeft, &mut state);
    assert_eq!(action, AppAction::Continue);
    assert_eq!(state.selection.head, Position::new(0, 0));
}

#[test]
fn test_execute_move_right() {
    let mut state = EditorState::new();
    state.buffer = LineBuffer::from_str("ab");
    state.selection = Selection::cursor(Position::new(0, 0));
    let action = execute_command(Command::MoveRight, &mut state);
    assert_eq!(action, AppAction::Continue);
    assert_eq!(state.selection.head, Position::new(0, 1));
}

#[test]
fn test_execute_enter_insert_mode() {
    let mut state = EditorState::new();
    let action = execute_command(Command::EnterInsertMode, &mut state);
    assert_eq!(action, AppAction::Continue);
    assert_eq!(state.mode, EditorMode::Insert);
}

#[test]
fn test_execute_enter_append_mode() {
    let mut state = EditorState::new();
    state.buffer = LineBuffer::from_str("hello");
    state.selection = Selection::cursor(Position::new(0, 2));
    let action = execute_command(Command::EnterAppendMode, &mut state);
    assert_eq!(action, AppAction::Continue);
    assert_eq!(state.mode, EditorMode::Insert);
    assert_eq!(state.selection.head, Position::new(0, 3));
}

#[test]
fn test_execute_enter_normal_mode() {
    let mut state = EditorState::new();
    state.set_mode(EditorMode::Insert);
    let action = execute_command(Command::EnterNormalMode, &mut state);
    assert_eq!(action, AppAction::Continue);
    assert_eq!(state.mode, EditorMode::Normal);
}

#[test]
fn test_execute_delete_selection() {
    let mut state = EditorState::new();
    state.buffer = LineBuffer::from_str("hello world");
    state.selection = Selection::new(Position::new(0, 6), Position::new(0, 11));
    let action = execute_command(Command::DeleteSelection, &mut state);
    assert_eq!(action, AppAction::Continue);
    assert_eq!(state.buffer.to_string(), "hello ");
}

#[test]
fn test_execute_undo() {
    let mut state = EditorState::new();
    state.insert_at_cursor("hello");
    let action = execute_command(Command::Undo, &mut state);
    assert_eq!(action, AppAction::Continue);
    assert_eq!(state.buffer.to_string(), "");
}

#[test]
fn test_execute_undo_nothing() {
    let mut state = EditorState::new();
    let action = execute_command(Command::Undo, &mut state);
    assert_eq!(action, AppAction::ShowMessage("Nothing to undo".to_string()));
}

#[test]
fn test_execute_redo() {
    let mut state = EditorState::new();
    state.insert_at_cursor("hello");
    state.undo();
    let action = execute_command(Command::Redo, &mut state);
    assert_eq!(action, AppAction::Continue);
    assert_eq!(state.buffer.to_string(), "hello");
}

#[test]
fn test_execute_quit_clean() {
    let mut state = EditorState::new();
    let action = execute_command(Command::Quit, &mut state);
    assert_eq!(action, AppAction::Quit);
}

#[test]
fn test_execute_quit_dirty() {
    let mut state = EditorState::new();
    state.dirty = true;
    let action = execute_command(Command::Quit, &mut state);
    assert_eq!(
        action,
        AppAction::ShowMessage("Unsaved changes. Use :q! to force quit.".to_string())
    );
}

#[test]
fn test_execute_force_quit() {
    let mut state = EditorState::new();
    state.dirty = true;
    let action = execute_command(Command::ForceQuit, &mut state);
    assert_eq!(action, AppAction::ForceQuit);
}

#[test]
fn test_execute_paste_after() {
    let mut state = EditorState::new();
    state.buffer = LineBuffer::from_str("ab");
    state.selection = Selection::cursor(Position::new(0, 0));
    state.yank_buffer = "XY".to_string();
    let action = execute_command(Command::PasteAfter, &mut state);
    assert_eq!(action, AppAction::Continue);
    assert_eq!(state.buffer.to_string(), "aXYb");
}

#[test]
fn test_execute_paste_before() {
    let mut state = EditorState::new();
    state.buffer = LineBuffer::from_str("ab");
    state.selection = Selection::cursor(Position::new(0, 1));
    state.yank_buffer = "XY".to_string();
    let action = execute_command(Command::PasteBefore, &mut state);
    assert_eq!(action, AppAction::Continue);
    assert_eq!(state.buffer.to_string(), "aXYb");
}

#[test]
fn test_execute_toggle_case() {
    let mut state = EditorState::new();
    state.buffer = LineBuffer::from_str("hello");
    state.selection = Selection::cursor(Position::new(0, 0));
    let action = execute_command(Command::ToggleCase, &mut state);
    assert_eq!(action, AppAction::Continue);
    assert_eq!(state.buffer.to_string(), "Hello");
    assert_eq!(state.selection.head, Position::new(0, 1));
}

#[test]
fn test_execute_indent_selection() {
    let mut state = EditorState::new();
    state.buffer = LineBuffer::from_str("line1\nline2");
    state.selection = Selection::new(Position::new(0, 0), Position::new(1, 0));
    let action = execute_command(Command::IndentSelection, &mut state);
    assert_eq!(action, AppAction::Continue);
    assert_eq!(state.buffer.to_string(), "\tline1\n\tline2");
}

#[test]
fn test_execute_unindent_selection() {
    let mut state = EditorState::new();
    state.buffer = LineBuffer::from_str("\tline1\n\tline2");
    state.selection = Selection::new(Position::new(0, 0), Position::new(1, 0));
    let action = execute_command(Command::UnindentSelection, &mut state);
    assert_eq!(action, AppAction::Continue);
    assert_eq!(state.buffer.to_string(), "line1\nline2");
}

#[test]
fn test_execute_jump_matching_pair() {
    let mut state = EditorState::new();
    state.buffer = LineBuffer::from_str("(hello)");
    state.selection = Selection::cursor(Position::new(0, 0));
    let action = execute_command(Command::JumpMatchingPair, &mut state);
    assert_eq!(action, AppAction::Continue);
    assert_eq!(state.selection.head, Position::new(0, 6));
}

#[test]
fn test_execute_visual_mode() {
    let mut state = EditorState::new();
    state.buffer = LineBuffer::from_str("hello");
    state.selection = Selection::cursor(Position::new(0, 2));
    let action = execute_command(Command::VisualMode, &mut state);
    assert_eq!(action, AppAction::Continue);
    assert_eq!(state.selection.anchor, Position::new(0, 2));
    assert_eq!(state.selection.head, Position::new(0, 2));
}

#[test]
fn test_execute_select_line() {
    let mut state = EditorState::new();
    state.buffer = LineBuffer::from_str("line1\nline2");
    state.selection = Selection::cursor(Position::new(0, 2));
    let action = execute_command(Command::SelectLine, &mut state);
    assert_eq!(action, AppAction::Continue);
    assert_eq!(state.selection.anchor, Position::new(0, 0));
    assert_eq!(state.selection.head, Position::new(1, 0));
}

#[test]
fn test_execute_page_up() {
    let mut state = EditorState::new();
    state.buffer = LineBuffer::from_str("a\nb\nc\nd\ne\nf\ng\nh\ni\nj\nk");
    state.selection = Selection::cursor(Position::new(10, 0));
    let action = execute_command(Command::PageUp, &mut state);
    assert_eq!(action, AppAction::Continue);
    assert_eq!(state.selection.head, Position::new(0, 0));
}

#[test]
fn test_execute_page_down() {
    let mut state = EditorState::new();
    state.buffer = LineBuffer::from_str("a\nb\nc\nd\ne\nf\ng\nh\ni\nj\nk");
    state.selection = Selection::cursor(Position::new(1, 0));
    let action = execute_command(Command::PageDown, &mut state);
    assert_eq!(action, AppAction::Continue);
    assert_eq!(state.selection.head, Position::new(10, 0));
}

#[test]
fn test_execute_move_word_forward() {
    let mut state = EditorState::new();
    state.buffer = LineBuffer::from_str("hello world");
    state.selection = Selection::cursor(Position::new(0, 0));
    let action = execute_command(Command::MoveWordForward, &mut state);
    assert_eq!(action, AppAction::Continue);
    assert_eq!(state.selection.head, Position::new(0, 6));
}

#[test]
fn test_execute_move_word_backward() {
    let mut state = EditorState::new();
    state.buffer = LineBuffer::from_str("hello world");
    state.selection = Selection::cursor(Position::new(0, 11));
    let action = execute_command(Command::MoveWordBackward, &mut state);
    assert_eq!(action, AppAction::Continue);
    assert_eq!(state.selection.head, Position::new(0, 5));
}

#[test]
fn test_execute_open_line_below() {
    let mut state = EditorState::new();
    state.buffer = LineBuffer::from_str("hello\nworld");
    state.selection = Selection::cursor(Position::new(0, 3));
    let action = execute_command(Command::OpenLineBelow, &mut state);
    assert_eq!(action, AppAction::Continue);
    assert_eq!(state.buffer.to_string(), "hello\n\nworld");
    assert_eq!(state.selection.head, Position::new(1, 0));
    assert_eq!(state.mode, EditorMode::Insert);
}

#[test]
fn test_execute_open_line_above() {
    let mut state = EditorState::new();
    state.buffer = LineBuffer::from_str("hello\nworld");
    state.selection = Selection::cursor(Position::new(1, 3));
    let action = execute_command(Command::OpenLineAbove, &mut state);
    assert_eq!(action, AppAction::Continue);
    assert_eq!(state.buffer.to_string(), "hello\n\nworld");
    assert_eq!(state.selection.head, Position::new(1, 0));
    assert_eq!(state.mode, EditorMode::Insert);
}

#[test]
fn test_execute_extend_selection_left() {
    let mut state = EditorState::new();
    state.buffer = LineBuffer::from_str("ab");
    state.selection = Selection::cursor(Position::new(0, 1));
    let action = execute_command(Command::ExtendSelectionLeft, &mut state);
    assert_eq!(action, AppAction::Continue);
    assert_eq!(state.selection.head, Position::new(0, 0));
    assert_eq!(state.selection.anchor, Position::new(0, 1));
}

#[test]
fn test_execute_extend_selection_right() {
    let mut state = EditorState::new();
    state.buffer = LineBuffer::from_str("ab");
    state.selection = Selection::cursor(Position::new(0, 0));
    let action = execute_command(Command::ExtendSelectionRight, &mut state);
    assert_eq!(action, AppAction::Continue);
    assert_eq!(state.selection.head, Position::new(0, 1));
    assert_eq!(state.selection.anchor, Position::new(0, 0));
}

#[test]
fn test_execute_extend_selection_up() {
    let mut state = EditorState::new();
    state.buffer = LineBuffer::from_str("a\nb");
    state.selection = Selection::cursor(Position::new(1, 0));
    let action = execute_command(Command::ExtendSelectionUp, &mut state);
    assert_eq!(action, AppAction::Continue);
    assert_eq!(state.selection.head, Position::new(0, 0));
    assert_eq!(state.selection.anchor, Position::new(1, 0));
}

#[test]
fn test_execute_extend_selection_down() {
    let mut state = EditorState::new();
    state.buffer = LineBuffer::from_str("a\nb");
    state.selection = Selection::cursor(Position::new(0, 0));
    let action = execute_command(Command::ExtendSelectionDown, &mut state);
    assert_eq!(action, AppAction::Continue);
    assert_eq!(state.selection.head, Position::new(1, 0));
    assert_eq!(state.selection.anchor, Position::new(0, 0));
}

#[test]
fn test_execute_collapse_selection() {
    let mut state = EditorState::new();
    state.buffer = LineBuffer::from_str("hello");
    state.selection = Selection::new(Position::new(0, 0), Position::new(0, 5));
    let action = execute_command(Command::CollapseSelection, &mut state);
    assert_eq!(action, AppAction::Continue);
    assert!(state.selection.is_empty());
    assert_eq!(state.selection.head, Position::new(0, 5));
}

#[test]
fn test_execute_change_selection() {
    let mut state = EditorState::new();
    state.buffer = LineBuffer::from_str("hello world");
    state.selection = Selection::new(Position::new(0, 6), Position::new(0, 11));
    let action = execute_command(Command::ChangeSelection, &mut state);
    assert_eq!(action, AppAction::Continue);
    assert_eq!(state.buffer.to_string(), "hello ");
    assert_eq!(state.mode, EditorMode::Insert);
}

#[test]
fn test_execute_change_selection_empty() {
    let mut state = EditorState::new();
    state.buffer = LineBuffer::from_str("abc");
    state.selection = Selection::cursor(Position::new(0, 1));
    let action = execute_command(Command::ChangeSelection, &mut state);
    assert_eq!(action, AppAction::Continue);
    assert_eq!(state.buffer.to_string(), "ac");
    assert_eq!(state.mode, EditorMode::Insert);
}

#[test]
fn test_execute_yank_selection() {
    let mut state = EditorState::new();
    state.buffer = LineBuffer::from_str("hello world");
    state.selection = Selection::new(Position::new(0, 6), Position::new(0, 11));
    let action = execute_command(Command::YankSelection, &mut state);
    assert_eq!(action, AppAction::Continue);
    assert_eq!(state.buffer.to_string(), "hello world");
    assert_eq!(state.yank_buffer, "world");
}

#[test]
fn test_execute_search_forward() {
    let mut state = EditorState::new();
    state.buffer = LineBuffer::from_str("hello world\nhello dim");
    state.selection = Selection::cursor(Position::new(0, 1));
    let action = execute_command(Command::SearchForward("hello".to_string()), &mut state);
    assert_eq!(action, AppAction::Continue);
    assert_eq!(state.selection.head, Position::new(1, 0));
}

#[test]
fn test_execute_search_forward_not_found() {
    let mut state = EditorState::new();
    state.buffer = LineBuffer::from_str("hello world");
    let action = execute_command(Command::SearchForward("xyz".to_string()), &mut state);
    assert_eq!(
        action,
        AppAction::ShowMessage("Pattern not found: xyz".to_string())
    );
}

#[test]
fn test_execute_search_backward() {
    let mut state = EditorState::new();
    state.buffer = LineBuffer::from_str("hello world\nhello dim");
    state.selection = Selection::cursor(Position::new(1, 5));
    let action = execute_command(Command::SearchBackward("hello".to_string()), &mut state);
    assert_eq!(action, AppAction::Continue);
    assert_eq!(state.selection.head, Position::new(1, 0));
}

#[test]
fn test_execute_search_next() {
    let mut state = EditorState::new();
    state.buffer = LineBuffer::from_str("hello world\nhello dim");
    state.selection = Selection::cursor(Position::new(0, 0));
    state.search_query = "hello".to_string();
    let action = execute_command(Command::SearchNext, &mut state);
    assert_eq!(action, AppAction::Continue);
    assert_eq!(state.selection.head, Position::new(1, 0));
}

#[test]
fn test_execute_search_previous() {
    let mut state = EditorState::new();
    state.buffer = LineBuffer::from_str("hello world\nhello dim");
    state.selection = Selection::cursor(Position::new(1, 0));
    state.search_query = "hello".to_string();
    let action = execute_command(Command::SearchPrevious, &mut state);
    assert_eq!(action, AppAction::Continue);
    assert_eq!(state.selection.head, Position::new(0, 0));
}

#[test]
fn test_execute_skk_toggle() {
    let mut state = EditorState::new();
    assert_eq!(state.skk_engine.state, SkkState::Direct);
    let action = execute_command(Command::SkkToggle, &mut state);
    assert_eq!(action, AppAction::Continue);
    assert_eq!(state.skk_engine.state, SkkState::Hiragana);
    let action = execute_command(Command::SkkToggle, &mut state);
    assert_eq!(action, AppAction::Continue);
    assert_eq!(state.skk_engine.state, SkkState::Direct);
}

