use dim::position::Position;
use dim::selection::Selection;
use dim::buffer::LineBuffer;
use dim::editor_state::{EditorMode, EditorState};
use dim::file_io::FileError;

#[test]
fn test_editor_state_new() {
    let state = EditorState::new();
    assert_eq!(state.buffer.to_string(), "");
    assert_eq!(state.selection, Selection::cursor(Position::new(0, 0)));
    assert_eq!(state.mode, EditorMode::Normal);
    assert!(!state.dirty);
    assert_eq!(state.file_path, None);
    assert!(!state.can_undo());
    assert!(!state.can_redo());
}

#[test]
fn test_open_file() {
    let path = "dim_test_open.txt";
    let mut state = EditorState::new();
    state.open_file(path, Ok("hello\nworld".to_string())).unwrap();
    assert_eq!(state.buffer.to_string(), "hello\nworld");
    assert_eq!(state.selection, Selection::cursor(Position::new(0, 0)));
    assert!(!state.dirty);
    assert_eq!(state.file_path, Some(path.to_string()));
}

#[test]
fn test_open_file_not_found() {
    let mut state = EditorState::new();
    let path = "dim_test_open_nonexistent.txt";
    let result = state.open_file(path, Err(FileError::NotFound));
    assert_eq!(result, Err(FileError::NotFound));
}

#[test]
fn test_save_file() {
    let path = "dim_test_save.txt";
    let mut state = EditorState::new();
    state.buffer = LineBuffer::from_str("save me");
    state.file_path = Some(path.to_string());
    state.dirty = true;
    let contents = state.buffer.to_string();
    state.save_file(Ok(())).unwrap();
    assert_eq!(contents, "save me");
    assert!(!state.dirty);
}

#[test]
fn test_save_file_no_path() {
    let mut state = EditorState::new();
    state.buffer = LineBuffer::from_str("no path");
    let result = state.save_file(Ok(()));
    assert_eq!(result, Err(FileError::WriteFailed));
}

#[test]
fn test_save_file_as() {
    let path = "dim_test_save_as.txt";
    let mut state = EditorState::new();
    state.buffer = LineBuffer::from_str("new content");
    state.dirty = true;
    let contents = state.buffer.to_string();
    state.save_file_as(path, Ok(())).unwrap();
    assert_eq!(contents, "new content");
    assert!(!state.dirty);
    assert_eq!(state.file_path, Some(path.to_string()));
}

#[test]
fn test_insert_at_cursor() {
    let mut state = EditorState::new();
    let end = state.insert_at_cursor("abc");
    assert_eq!(end, Position::new(0, 3));
    assert_eq!(state.buffer.to_string(), "abc");
    assert_eq!(state.selection, Selection::cursor(Position::new(0, 3)));
    assert!(state.dirty);
    assert!(state.can_undo());
}

#[test]
fn test_insert_replaces_selection() {
    let mut state = EditorState::new();
    state.buffer = LineBuffer::from_str("hello world");
    state.selection = Selection::new(Position::new(0, 6), Position::new(0, 11));
    state.insert_at_cursor("dim");
    assert_eq!(state.buffer.to_string(), "hello dim");
    assert_eq!(state.selection, Selection::cursor(Position::new(0, 9)));
    assert!(state.can_undo());
}

#[test]
fn test_delete_selection() {
    let mut state = EditorState::new();
    state.buffer = LineBuffer::from_str("hello world");
    state.selection = Selection::new(Position::new(0, 6), Position::new(0, 11));
    let deleted = state.delete_selection();
    assert_eq!(deleted, "world");
    assert_eq!(state.buffer.to_string(), "hello ");
    assert_eq!(state.selection, Selection::cursor(Position::new(0, 6)));
    assert!(state.dirty);
    assert!(state.can_undo());
}

#[test]
fn test_delete_empty_selection() {
    let mut state = EditorState::new();
    state.buffer = LineBuffer::from_str("abc");
    state.selection = Selection::cursor(Position::new(0, 1));
    let deleted = state.delete_selection();
    assert_eq!(deleted, "");
    assert_eq!(state.buffer.to_string(), "abc");
    assert!(!state.can_undo());
}

#[test]
fn test_delete_char() {
    let mut state = EditorState::new();
    state.buffer = LineBuffer::from_str("abc");
    state.selection = Selection::cursor(Position::new(0, 1));
    state.delete_char();
    assert_eq!(state.buffer.to_string(), "ac");
    assert_eq!(state.selection, Selection::cursor(Position::new(0, 1)));
    assert!(state.can_undo());
}

#[test]
fn test_delete_char_joins_lines() {
    let mut state = EditorState::new();
    state.buffer = LineBuffer::from_str("ab\ncd");
    state.selection = Selection::cursor(Position::new(0, 2));
    state.delete_char();
    assert_eq!(state.buffer.to_string(), "abcd");
    assert_eq!(state.selection, Selection::cursor(Position::new(0, 2)));
}

#[test]
fn test_undo_insert() {
    let mut state = EditorState::new();
    state.insert_at_cursor("hello");
    assert_eq!(state.buffer.to_string(), "hello");
    let undone = state.undo();
    assert!(undone);
    assert_eq!(state.buffer.to_string(), "");
    assert!(!state.can_undo());
    assert!(state.can_redo());
}

#[test]
fn test_redo_insert() {
    let mut state = EditorState::new();
    state.insert_at_cursor("hello");
    state.undo();
    let redone = state.redo();
    assert!(redone);
    assert_eq!(state.buffer.to_string(), "hello");
    assert!(state.can_undo());
    assert!(!state.can_redo());
}

#[test]
fn test_undo_delete() {
    let mut state = EditorState::new();
    state.buffer = LineBuffer::from_str("hello world");
    state.selection = Selection::new(Position::new(0, 5), Position::new(0, 11));
    state.delete_selection();
    assert_eq!(state.buffer.to_string(), "hello");
    state.undo();
    assert_eq!(state.buffer.to_string(), "hello world");
}

#[test]
fn test_undo_redo_multiple() {
    let mut state = EditorState::new();
    state.insert_at_cursor("a");
    state.insert_at_cursor("b");
    state.insert_at_cursor("c");
    assert_eq!(state.buffer.to_string(), "abc");
    state.undo();
    assert_eq!(state.buffer.to_string(), "ab");
    state.undo();
    assert_eq!(state.buffer.to_string(), "a");
    state.redo();
    assert_eq!(state.buffer.to_string(), "ab");
    state.redo();
    assert_eq!(state.buffer.to_string(), "abc");
}

#[test]
fn test_move_cursor_left() {
    let mut state = EditorState::new();
    state.buffer = LineBuffer::from_str("ab\ncd");
    state.selection = Selection::cursor(Position::new(1, 1));
    state.move_cursor_left();
    assert_eq!(state.selection.head, Position::new(1, 0));
    state.move_cursor_left();
    assert_eq!(state.selection.head, Position::new(0, 2));
    state.move_cursor_left();
    assert_eq!(state.selection.head, Position::new(0, 1));
}

#[test]
fn test_move_cursor_left_at_origin() {
    let mut state = EditorState::new();
    state.selection = Selection::cursor(Position::new(0, 0));
    state.move_cursor_left();
    assert_eq!(state.selection.head, Position::new(0, 0));
}

#[test]
fn test_move_cursor_right() {
    let mut state = EditorState::new();
    state.buffer = LineBuffer::from_str("ab\ncd");
    state.selection = Selection::cursor(Position::new(0, 1));
    state.move_cursor_right();
    assert_eq!(state.selection.head, Position::new(0, 2));
    state.move_cursor_right();
    assert_eq!(state.selection.head, Position::new(1, 0));
    state.move_cursor_right();
    assert_eq!(state.selection.head, Position::new(1, 1));
}

#[test]
fn test_move_cursor_right_at_end() {
    let mut state = EditorState::new();
    state.buffer = LineBuffer::from_str("a");
    state.selection = Selection::cursor(Position::new(0, 1));
    state.move_cursor_right();
    assert_eq!(state.selection.head, Position::new(0, 1));
}

#[test]
fn test_move_cursor_up() {
    let mut state = EditorState::new();
    state.buffer = LineBuffer::from_str("hello\nworld");
    state.selection = Selection::cursor(Position::new(1, 3));
    state.move_cursor_up();
    assert_eq!(state.selection.head, Position::new(0, 3));
}

#[test]
fn test_move_cursor_up_clamps_col() {
    let mut state = EditorState::new();
    state.buffer = LineBuffer::from_str("hi\nworld");
    state.selection = Selection::cursor(Position::new(1, 5));
    state.move_cursor_up();
    assert_eq!(state.selection.head, Position::new(0, 2));
}

#[test]
fn test_move_cursor_up_at_top() {
    let mut state = EditorState::new();
    state.selection = Selection::cursor(Position::new(0, 0));
    state.move_cursor_up();
    assert_eq!(state.selection.head, Position::new(0, 0));
}

#[test]
fn test_move_cursor_down() {
    let mut state = EditorState::new();
    state.buffer = LineBuffer::from_str("hello\nworld");
    state.selection = Selection::cursor(Position::new(0, 3));
    state.move_cursor_down();
    assert_eq!(state.selection.head, Position::new(1, 3));
}

#[test]
fn test_move_cursor_down_clamps_col() {
    let mut state = EditorState::new();
    state.buffer = LineBuffer::from_str("world\nhi");
    state.selection = Selection::cursor(Position::new(0, 5));
    state.move_cursor_down();
    assert_eq!(state.selection.head, Position::new(1, 2));
}

#[test]
fn test_move_cursor_down_at_bottom() {
    let mut state = EditorState::new();
    state.buffer = LineBuffer::from_str("hello");
    state.selection = Selection::cursor(Position::new(0, 0));
    state.move_cursor_down();
    assert_eq!(state.selection.head, Position::new(0, 0));
}

#[test]
fn test_clamp_position() {
    let mut state = EditorState::new();
    state.buffer = LineBuffer::from_str("ab\ncde");
    assert_eq!(state.clamp_position(Position::new(0, 100)), Position::new(0, 2));
    assert_eq!(state.clamp_position(Position::new(100, 0)), Position::new(1, 0));
    assert_eq!(state.clamp_position(Position::new(1, 100)), Position::new(1, 3));
}

#[test]
fn test_set_mode() {
    let mut state = EditorState::new();
    assert_eq!(state.mode, EditorMode::Normal);
    state.set_mode(EditorMode::Insert);
    assert_eq!(state.mode, EditorMode::Insert);
}

#[test]
fn test_new_buffers_empty() {
    let state = EditorState::new();
    assert_eq!(state.command_buffer, "");
    assert_eq!(state.yank_buffer, "");
}

#[test]
fn test_yank_selection() {
    let mut state = EditorState::new();
    state.buffer = LineBuffer::from_str("hello world");
    state.selection = Selection::new(Position::new(0, 6), Position::new(0, 11));
    let yanked = state.yank_selection();
    assert_eq!(yanked, "world");
    assert_eq!(state.yank_buffer, "world");
    assert_eq!(state.buffer.to_string(), "hello world");
    assert_eq!(state.selection, Selection::new(Position::new(0, 6), Position::new(0, 11)));
}

#[test]
fn test_delete_sets_yank_buffer() {
    let mut state = EditorState::new();
    state.buffer = LineBuffer::from_str("hello world");
    state.selection = Selection::new(Position::new(0, 6), Position::new(0, 11));
    state.delete_selection();
    assert_eq!(state.yank_buffer, "world");
}

#[test]
fn test_search_forward() {
    let mut state = EditorState::new();
    state.buffer = LineBuffer::from_str("hello world\nhello dim");
    state.selection = Selection::cursor(Position::new(0, 0));
    let found = state.search_forward("hello");
    assert!(found);
    assert_eq!(state.selection.head, Position::new(0, 0));
}

#[test]
fn test_search_forward_next_line() {
    let mut state = EditorState::new();
    state.buffer = LineBuffer::from_str("hello world\nhello dim");
    state.selection = Selection::cursor(Position::new(0, 2));
    let found = state.search_forward("hello");
    assert!(found);
    assert_eq!(state.selection.head, Position::new(1, 0));
}

#[test]
fn test_search_forward_not_found() {
    let mut state = EditorState::new();
    state.buffer = LineBuffer::from_str("hello world");
    state.selection = Selection::cursor(Position::new(0, 0));
    let found = state.search_forward("xyz");
    assert!(!found);
}

#[test]
fn test_search_backward() {
    let mut state = EditorState::new();
    state.buffer = LineBuffer::from_str("hello world\nhello dim");
    state.selection = Selection::cursor(Position::new(1, 5));
    let found = state.search_backward("hello");
    assert!(found);
    assert_eq!(state.selection.head, Position::new(1, 0));
}

#[test]
fn test_search_backward_prev_line() {
    let mut state = EditorState::new();
    state.buffer = LineBuffer::from_str("hello world\nhello dim");
    state.selection = Selection::cursor(Position::new(1, 0));
    let found = state.search_backward("hello");
    assert!(found);
    assert_eq!(state.selection.head, Position::new(0, 0));
}

