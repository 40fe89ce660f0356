use dim::buffer::LineBuffer;
use dim::editor_state::{EditorMode, EditorState};
use dim::position::Position;
use dim::renderer::{Renderer, selection_range_on_line, truncate_ansi_to_width};
use dim::selection::Selection;
use dim::skk::SkkState;

#[test]
fn test_renderer_new() {
    let r = Renderer::new(80, 24, 4, false, false);
    let frame = r.render(&EditorState::new());
    assert_eq!(frame.rows.len(), 24);
}

#[test]
fn test_render_empty_buffer() {
    let r = Renderer::new(80, 3, 4, false, false);
    let state = EditorState::new();
    let frame = r.render(&state);
    assert_eq!(frame.rows.len(), 3);
    assert_eq!(frame.rows[0], "");
    assert_eq!(frame.rows[1], "");
    assert!(frame.rows[2].contains("NORMAL"));
}

#[test]
fn test_render_text_lines() {
    let r = Renderer::new(80, 4, 4, false, false);
    let mut state = EditorState::new();
    state.buffer = LineBuffer::from("hello\nworld\n!");
    let frame = r.render(&state);
    assert_eq!(frame.rows[0], "hello");
    assert_eq!(frame.rows[1], "world");
    assert_eq!(frame.rows[2], "!");
}

#[test]
fn test_render_truncates_long_lines() {
    let r = Renderer::new(5, 3, 4, false, false);
    let mut state = EditorState::new();
    state.buffer = LineBuffer::from("abcdefgh");
    let frame = r.render(&state);
    assert_eq!(frame.rows[0], "abcde");
}

#[test]
fn test_render_status_line_no_name() {
    let r = Renderer::new(40, 2, 4, false, false);
    let state = EditorState::new();
    let frame = r.render(&state);
    let status = &frame.rows[1];
    assert!(status.contains("NORMAL"));
    assert!(status.contains("[No Name]"));
    assert!(status.contains("1:1"));
}

#[test]
fn test_render_status_line_with_file_and_dirty() {
    let r = Renderer::new(50, 2, 4, false, false);
    let mut state = EditorState::new();
    state.file_path = Some("/tmp/test.txt".to_string());
    state.dirty = true;
    state.selection = Selection::cursor(Position::new(2, 5));
    let frame = r.render(&state);
    let status = &frame.rows[1];
    assert!(status.contains("test.txt"));
    assert!(status.contains("[+]"));
    assert!(status.contains("3:6"));
}

#[test]
fn test_render_command_mode() {
    let r = Renderer::new(40, 2, 4, false, false);
    let mut state = EditorState::new();
    state.set_mode(EditorMode::Command);
    state.command_buffer = "write".to_string();
    let frame = r.render(&state);
    assert_eq!(frame.rows[1], ":write");
}

#[test]
fn test_cursor_position() {
    let r = Renderer::new(80, 24, 4, false, false);
    let mut state = EditorState::new();
    state.buffer = LineBuffer::from("hello\nworld");
    state.selection = Selection::cursor(Position::new(1, 3));
    let (col, row) = r.cursor_position(&state);
    assert_eq!(col, 3);
    assert_eq!(row, 1);
}

#[test]
fn test_cursor_position_clamped() {
    let r = Renderer::new(5, 2, 4, false, false);
    let mut state = EditorState::new();
    state.selection = Selection::cursor(Position::new(100, 100));
    let (col, row) = r.cursor_position(&state);
    assert_eq!(col, 5);
    assert_eq!(row, 0);
}

#[test]
fn test_render_japanese_truncated() {
    let r = Renderer::new(5, 2, 4, false, false);
    let mut state = EditorState::new();
    state.buffer = LineBuffer::from("日本語");
    let frame = r.render(&state);
    // 日本 = 4 width, 日 = 2 width, so at width 5 we can only fit 日+本 (4) but not 日+本+語 (6).
    // So it should be "日本" (width 4) since 5 >= 4 but 5 < 6.
    assert_eq!(frame.rows[0], "日本");
}

#[test]
fn test_render_status_line_shows_message() {
    let r = Renderer::new(40, 2, 4, false, false);
    let mut state = EditorState::new();
    state.message = Some("File saved".to_string());
    let frame = r.render(&state);
    assert_eq!(frame.rows[1], "File saved");
}

#[test]
fn test_render_search_mode() {
    let r = Renderer::new(40, 2, 4, false, false);
    let mut state = EditorState::new();
    state.set_mode(EditorMode::Search);
    state.search_query = "hello".to_string();
    let frame = r.render(&state);
    assert_eq!(frame.rows[1], "/hello");
}

#[test]
fn test_scroll_offset_renders_correct_lines() {
    let mut r = Renderer::new(10, 3, 4, false, false);
    let mut state = EditorState::new();
    state.buffer = LineBuffer::from("line0\nline1\nline2\nline3\nline4");
    r.scroll_offset = 2;
    let frame = r.render(&state);
    assert_eq!(frame.rows[0], "line2");
    assert_eq!(frame.rows[1], "line3");
}

#[test]
fn test_ensure_cursor_visible_scrolls_down() {
    let mut r = Renderer::new(10, 3, 4, false, false);
    let mut state = EditorState::new();
    state.buffer = LineBuffer::from("line0\nline1\nline2\nline3\nline4");
    state.selection = Selection::cursor(Position::new(3, 0));
    r.ensure_cursor_visible(&state);
    assert_eq!(r.scroll_offset, 2);
}

#[test]
fn test_ensure_cursor_visible_scrolls_up() {
    let mut r = Renderer::new(10, 3, 4, false, false);
    let mut state = EditorState::new();
    state.buffer = LineBuffer::from("line0\nline1\nline2\nline3\nline4");
    r.scroll_offset = 3;
    state.selection = Selection::cursor(Position::new(1, 0));
    r.ensure_cursor_visible(&state);
    assert_eq!(r.scroll_offset, 1);
}

#[test]
fn test_cursor_position_with_scroll() {
    let mut r = Renderer::new(10, 5, 4, false, false);
    let mut state = EditorState::new();
    state.buffer = LineBuffer::from("line0\nline1\nline2\nline3\nline4");
    r.scroll_offset = 2;
    state.selection = Selection::cursor(Position::new(3, 2));
    let (col, row) = r.cursor_position(&state);
    assert_eq!(col, 2);
    assert_eq!(row, 1);
}

#[test]
fn test_cursor_position_japanese() {
    let r = Renderer::new(80, 24, 4, false, false);
    let mut state = EditorState::new();
    state.buffer = LineBuffer::from("日本語");
    // Cursor after "日" (1 char)
    state.selection = Selection::cursor(Position::new(0, 1));
    let (col, row) = r.cursor_position(&state);
    assert_eq!(col, 2); // full-width = 2 columns
    assert_eq!(row, 0);

    // Cursor after "日本" (2 chars)
    state.selection = Selection::cursor(Position::new(0, 2));
    let (col, row) = r.cursor_position(&state);
    assert_eq!(col, 4);
    assert_eq!(row, 0);
}

#[test]
fn test_cursor_position_with_tab() {
    let r = Renderer::new(80, 24, 4, false, false);
    let mut state = EditorState::new();
    state.buffer = LineBuffer::from("a\tb\tc");
    // Cursor after "a\t" (2 chars)
    state.selection = Selection::cursor(Position::new(0, 2));
    let (col, row) = r.cursor_position(&state);
    assert_eq!(col, 4); // 'a' (1) + tab to next stop (4) = 4
    assert_eq!(row, 0);

    // Cursor after "a\tb\t" (4 chars)
    state.selection = Selection::cursor(Position::new(0, 4));
    let (col, row) = r.cursor_position(&state);
    assert_eq!(col, 8); // 4 + 'b'(1) + tab(3) = 8
    assert_eq!(row, 0);
}

#[test]
fn test_render_empty_selection_no_highlight() {
    let r = Renderer::new(80, 2, 4, false, false);
    let mut state = EditorState::new();
    state.buffer = LineBuffer::from("hello world");
    state.selection = Selection::cursor(Position::new(0, 6));
    let frame = r.render(&state);
    assert_eq!(frame.rows[0], "hello world");
}

#[test]
fn test_render_single_line_selection_highlighted() {
    let r = Renderer::new(80, 2, 4, false, false);
    let mut state = EditorState::new();
    state.buffer = LineBuffer::from("hello world");
    state.selection = Selection::new(Position::new(0, 6), Position::new(0, 11));
    let frame = r.render(&state);
    assert!(frame.rows[0].contains("\x1b[7mworld\x1b[0m"));
}

#[test]
fn test_render_multi_line_selection_highlighted() {
    let r = Renderer::new(80, 3, 4, false, false);
    let mut state = EditorState::new();
    state.buffer = LineBuffer::from("hello\nworld\n!");
    state.selection = Selection::new(Position::new(0, 2), Position::new(1, 3));
    let frame = r.render(&state);
    assert!(frame.rows[0].contains("\x1b[7mllo\x1b[0m"));
    assert!(frame.rows[1].contains("\x1b[7mwor\x1b[0m"));
}

#[test]
fn test_render_full_line_selection() {
    let r = Renderer::new(80, 3, 4, false, false);
    let mut state = EditorState::new();
    state.buffer = LineBuffer::from("hello\nworld");
    state.selection = Selection::new(Position::new(0, 0), Position::new(1, 5));
    let frame = r.render(&state);
    assert!(frame.rows[0].starts_with("\x1b[7mhello\x1b[0m"));
    assert!(frame.rows[1].starts_with("\x1b[7mworld\x1b[0m"));
}

#[test]
fn test_render_selection_truncated_with_ansi() {
    let r = Renderer::new(8, 2, 4, false, false);
    let mut state = EditorState::new();
    state.buffer = LineBuffer::from("hello world");
    state.selection = Selection::new(Position::new(0, 0), Position::new(0, 11));
    let frame = r.render(&state);
    // Should truncate to 8 display columns while preserving ANSI codes
    assert!(frame.rows[0].contains("\x1b[7m"));
    // The visible portion should not exceed width
    let visible_len = frame.rows[0]
        .replace("\x1b[7m", "")
        .replace("\x1b[0m", "")
        .chars()
        .count();
    assert!(visible_len <= 8, "visible_len={}, row={}", visible_len, frame.rows[0]);
}

#[test]
fn test_truncate_ansi_to_width_skips_ansi() {
    let input = "\x1b[7mhello\x1b[0m";
    let result = truncate_ansi_to_width(input, 3, 4);
    // Should include ANSI codes but only 3 visible chars
    assert!(result.contains("\x1b[7m"));
    assert!(result.contains("hel"));
    assert!(!result.contains("lo"));
}

#[test]
fn test_render_backward_selection() {
    let r = Renderer::new(80, 2, 4, false, false);
    let mut state = EditorState::new();
    state.buffer = LineBuffer::from("hello world");
    state.selection = Selection::new(Position::new(0, 11), Position::new(0, 6));
    let frame = r.render(&state);
    assert!(frame.rows[0].contains("\x1b[7mworld\x1b[0m"));
}

#[test]
fn test_selection_range_on_line_empty() {
    let sel = Selection::cursor(Position::new(0, 5));
    assert_eq!(selection_range_on_line(&sel, 0, 10), None);
}

#[test]
fn test_selection_range_on_line_no_overlap() {
    let sel = Selection::new(Position::new(1, 0), Position::new(1, 5));
    assert_eq!(selection_range_on_line(&sel, 0, 10), None);
    assert_eq!(selection_range_on_line(&sel, 2, 10), None);
}

#[test]
fn test_selection_range_on_line_single_line() {
    let sel = Selection::new(Position::new(0, 2), Position::new(0, 5));
    assert_eq!(selection_range_on_line(&sel, 0, 10), Some((2, 5)));
}

#[test]
fn test_selection_range_on_line_spanning_start() {
    let sel = Selection::new(Position::new(0, 3), Position::new(1, 2));
    assert_eq!(selection_range_on_line(&sel, 0, 10), Some((3, 10)));
}

#[test]
fn test_selection_range_on_line_spanning_end() {
    let sel = Selection::new(Position::new(0, 3), Position::new(1, 2));
    assert_eq!(selection_range_on_line(&sel, 1, 10), Some((0, 2)));
}

#[test]
fn test_render_with_line_numbers() {
    let r = Renderer::new(20, 3, 4, true, false);
    let mut state = EditorState::new();
    state.buffer = LineBuffer::from("hello\nworld");
    let frame = r.render(&state);
    assert!(frame.rows[0].starts_with("1 "));
    assert!(frame.rows[0].contains("hello"));
    assert!(frame.rows[1].starts_with("2 "));
    assert!(frame.rows[1].contains("world"));
}

#[test]
fn test_render_without_line_numbers() {
    let r = Renderer::new(20, 2, 4, false, false);
    let mut state = EditorState::new();
    state.buffer = LineBuffer::from("hello");
    let frame = r.render(&state);
    assert!(!frame.rows[0].starts_with("1 "));
    assert_eq!(frame.rows[0], "hello");
}

#[test]
fn test_render_relative_line_numbers() {
    let r = Renderer::new(20, 4, 4, true, true);
    let mut state = EditorState::new();
    state.buffer = LineBuffer::from("a\nb\nc");
    state.selection = Selection::cursor(Position::new(1, 0));
    let frame = r.render(&state);
    // Line 0 is 1 away from cursor, should show relative
    assert!(frame.rows[0].starts_with("1 "));
    // Line 1 is cursor line, should show absolute
    assert!(frame.rows[1].starts_with("2 "));
    // Line 2 is 1 away from cursor, should show relative
    assert!(frame.rows[2].starts_with("1 "));
}

#[test]
fn test_cursor_position_with_line_numbers() {
    let r = Renderer::new(20, 2, 4, true, false);
    let mut state = EditorState::new();
    state.buffer = LineBuffer::from("hello");
    state.selection = Selection::cursor(Position::new(0, 0));
    let (col, row) = r.cursor_position(&state);
    // Cursor at beginning of text, gutter is "1 " = 2 chars
    assert_eq!(col, 2);
    assert_eq!(row, 0);
}

#[test]
fn test_gutter_width_single_digit() {
    let r = Renderer::new(20, 2, 4, true, false);
    let mut state = EditorState::new();
    state.buffer = LineBuffer::from("a\nb\nc");
    assert_eq!(r.compute_gutter_width(&state), 2); // "3" + space
}

#[test]
fn test_gutter_width_double_digit() {
    let r = Renderer::new(20, 2, 4, true, false);
    let mut state = EditorState::new();
    let lines: Vec<String> = (0..15).map(|i| format!("line{}", i)).collect();
    state.buffer = LineBuffer::from(lines.join("\n").as_str());
    assert_eq!(r.compute_gutter_width(&state), 3); // "15" + space
}

#[test]
fn test_render_status_line_skk_hiragana() {
    let r = Renderer::new(40, 2, 4, false, false);
    let mut state = EditorState::new();
    state.set_mode(EditorMode::Insert);
    state.skk_enabled = true;
    state.skk_engine.state = SkkState::Hiragana;
    let frame = r.render(&state);
    let status = &frame.rows[1];
    assert!(status.contains("INSERT"));
    assert!(status.contains("[あ]"));
}

#[test]
fn test_render_status_line_skk_katakana() {
    let r = Renderer::new(40, 2, 4, false, false);
    let mut state = EditorState::new();
    state.set_mode(EditorMode::Insert);
    state.skk_enabled = true;
    state.skk_engine.state = SkkState::Katakana;
    let frame = r.render(&state);
    let status = &frame.rows[1];
    assert!(status.contains("INSERT"));
    assert!(status.contains("[ア]"));
}

#[test]
fn test_render_status_line_skk_converting() {
    let r = Renderer::new(40, 2, 4, false, false);
    let mut state = EditorState::new();
    state.set_mode(EditorMode::Insert);
    state.skk_enabled = true;
    state.skk_engine.state = SkkState::Converting;
    let frame = r.render(&state);
    let status = &frame.rows[1];
    assert!(status.contains("INSERT"));
    assert!(status.contains("[変換]"));
}

#[test]
fn test_render_status_line_skk_direct_no_label() {
    let r = Renderer::new(40, 2, 4, false, false);
    let mut state = EditorState::new();
    state.set_mode(EditorMode::Insert);
    state.skk_enabled = true;
    state.skk_engine.state = SkkState::Direct;
    let frame = r.render(&state);
    let status = &frame.rows[1];
    assert!(status.contains("INSERT"));
    // Should not contain any SKK labels
    assert!(!status.contains("[あ]"));
    assert!(!status.contains("[ア]"));
    assert!(!status.contains("[変換]"));
    assert!(!status.contains("[登録]"));
}

#[test]
fn test_render_status_line_skk_disabled() {
    let r = Renderer::new(40, 2, 4, false, false);
    let mut state = EditorState::new();
    state.set_mode(EditorMode::Insert);
    state.skk_enabled = false;
    let frame = r.render(&state);
    let status = &frame.rows[1];
    assert!(status.contains("INSERT"));
    assert!(!status.contains("[あ]"));
    assert!(!status.contains("[ア]"));
    assert!(!status.contains("[変換]"));
    assert!(!status.contains("[登録]"));
}

#[test]
fn test_render_status_line_truncated_when_too_long() {
    let r = Renderer::new(10, 2, 4, false, false);
    let mut state = EditorState::new();
    state.file_path = Some("/very/long/path/name.txt".to_string());
    state.dirty = true;
    let frame = r.render(&state);
    let status = &frame.rows[1];
    // Should be truncated to fit within 10 columns
    assert!(status.len() <= 10 || !status.contains("name.txt"));
}

