use dim::app::{execute_command, App, AppAction};
use dim::buffer::{char_display_width, char_idx_to_byte_idx, LineBuffer};
use dim::command::{Command, CommandRegistry, ParseCommandError};
use dim::config::{default_skk_enabled, default_tab_width, Config};
use dim::editor_state::{EditorMode, EditorState};
use dim::file_io::{decode_text, normalize_newlines, FileError};
use dim::input::{key_input, InputEvent, KeyCode, Modifiers};
use dim::keymap::Keymap;
use dim::position::Position;
use dim::renderer::{decimal, file_name, highlight_line, truncate_to_width, Renderer};
use dim::selection::Selection;
use dim::skk::{Dictionary, SkkAction, SkkEngine, SkkState};

fn state_with(text: &str, head: Position) -> EditorState {
    let mut state = EditorState::new();
    state.buffer = LineBuffer::from_str(text);
    state.selection = Selection::cursor(head);
    state
}

fn key(code: KeyCode) -> InputEvent {
    InputEvent::Key { code, modifiers: Modifiers::none() }
}

#[test]
fn test_law_type_then_undo_restores() {
    let mut state = state_with("hello\nworld", Position::new(1, 2));
    state.insert_at_cursor("X\nY");
    assert_eq!(state.buffer.to_string(), "hello\nwoX\nYrld");
    assert!(state.undo());
    assert_eq!(state.buffer.to_string(), "hello\nworld");
    assert!(!state.can_undo());
}

#[test]
fn test_law_type_undo_redo() {
    let mut state = state_with("abc", Position::new(0, 1));
    state.selection = Selection::new(Position::new(0, 1), Position::new(0, 3));
    state.insert_at_cursor("Z");
    assert_eq!(state.buffer.to_string(), "aZ");
    assert!(state.undo());
    assert_eq!(state.buffer.to_string(), "abc");
    assert!(state.redo());
    assert_eq!(state.buffer.to_string(), "aZ");
    assert!(state.can_undo());
    assert!(!state.can_redo());
}

#[test]
fn test_law_delete_then_undo_restores() {
    let mut state = state_with("one\ntwo\nthree", Position::new(0, 1));
    state.selection = Selection::new(Position::new(2, 2), Position::new(0, 1));
    let deleted = state.delete_selection();
    assert_eq!(deleted, "ne\ntwo\nth");
    assert_eq!(state.buffer.to_string(), "oree");
    assert!(state.undo());
    assert_eq!(state.buffer.to_string(), "one\ntwo\nthree");
}

#[test]
fn test_law_text_roundtrip() {
    for t in ["", "a", "a\n", "\n\n", "one\ntwo", "日本\n語"] {
        assert_eq!(LineBuffer::from_str(t).to_string(), t);
    }
}

#[test]
fn test_law_newlines_unified() {
    assert_eq!(normalize_newlines("a\r\nb\rc\n"), "a\nb\nc\n");
    assert_eq!(normalize_newlines("\r\r\n"), "\n\n");
    assert_eq!(normalize_newlines("plain"), "plain");
}

#[test]
fn test_decode_text() {
    assert_eq!(decode_text(b"line1\r\nline2".to_vec()), Ok("line1\nline2".to_string()));
    assert_eq!(decode_text("日本語".as_bytes().to_vec()), Ok("日本語".to_string()));
    assert_eq!(decode_text(vec![0x80, 0x81]), Err(FileError::InvalidUtf8));
}

#[test]
fn test_file_error_names() {
    assert_eq!(FileError::NotFound.name(), "NotFound");
    assert_eq!(FileError::PermissionDenied.name(), "PermissionDenied");
    assert_eq!(FileError::InvalidUtf8.name(), "InvalidUtf8");
    assert_eq!(FileError::WriteFailed.name(), "WriteFailed");
}

#[test]
fn test_law_search_finds_query() {
    let mut state = state_with("abc abc\nxabc", Position::new(0, 1));
    assert!(state.search_forward("abc"));
    assert_eq!(state.selection.head, Position::new(0, 4));
    assert!(state.search_forward("abc"));
    assert_eq!(state.selection.head, Position::new(0, 4));
    state.selection = Selection::cursor(Position::new(0, 5));
    assert!(state.search_forward("abc"));
    assert_eq!(state.selection.head, Position::new(1, 1));
    assert!(state.search_backward("abc"));
    assert_eq!(state.selection.head, Position::new(0, 4));
    assert!(!state.search_forward(""));
}

#[test]
fn test_law_candidate_steps_inverse() {
    let mut skk = SkkEngine::new();
    skk.state = SkkState::Hiragana;
    skk.reading = "てきすと".to_string();
    skk.start_conversion();
    assert_eq!(skk.current_candidate(), Some("テキスト"));
    skk.next_candidate();
    skk.previous_candidate();
    assert_eq!(skk.current_candidate(), Some("テキスト"));
    skk.previous_candidate();
    assert_eq!(skk.current_candidate(), Some("文章"));
    skk.next_candidate();
    assert_eq!(skk.current_candidate(), Some("テキスト"));
}

#[test]
fn test_law_toggle_twice() {
    let mut skk = SkkEngine::new();
    skk.toggle();
    skk.process_char('k');
    skk.toggle();
    assert_eq!(skk.state, SkkState::Direct);
    assert_eq!(skk.preedit, "");
    assert_eq!(skk.process_char('k'), SkkAction::Insert("k".to_string()));
}

#[test]
fn test_law_insert_mode_unmapped() {
    assert_eq!(Keymap::handle(&InputEvent::Text("m".to_string()), EditorMode::Insert), None);
    assert_eq!(Keymap::handle(&key(KeyCode::Escape), EditorMode::Insert), None);
}

#[test]
fn test_law_render_rows() {
    let state = EditorState::new();
    for h in [0usize, 1, 2, 7] {
        let r = Renderer::new(10, h, 4, false, false);
        assert_eq!(r.render(&state).rows.len(), if h == 0 { 1 } else { h });
    }
}

#[test]
fn test_law_cursor_kept_visible() {
    let mut r = Renderer::new(10, 4, 4, false, false);
    let mut state = state_with("0\n1\n2\n3\n4\n5\n6\n7\n8\n9", Position::new(9, 0));
    r.ensure_cursor_visible(&state);
    assert_eq!(r.scroll_offset, 7);
    state.selection = Selection::cursor(Position::new(8, 0));
    r.ensure_cursor_visible(&state);
    assert_eq!(r.scroll_offset, 7);
    state.selection = Selection::cursor(Position::new(2, 0));
    r.ensure_cursor_visible(&state);
    assert_eq!(r.scroll_offset, 2);
}

#[test]
fn test_status_line_exact() {
    let r = Renderer::new(30, 2, 4, false, false);
    let state = EditorState::new();
    let frame = r.render(&state);
    assert_eq!(frame.rows[1], "-- NORMAL -- [No Name]    1:1");
}

#[test]
fn test_status_line_truncated() {
    let r = Renderer::new(10, 2, 4, false, false);
    let state = EditorState::new();
    let frame = r.render(&state);
    assert_eq!(frame.rows[1], "-- NORMAL ");
}

#[test]
fn test_gutter_and_relative_numbers() {
    let r = Renderer::new(20, 3, 4, true, true);
    let mut lines = Vec::new();
    for i in 0..100 {
        lines.push(format!("l{}", i));
    }
    let mut state = EditorState::new();
    state.buffer = LineBuffer::from_str(&lines.join("\n"));
    state.selection = Selection::cursor(Position::new(1, 0));
    assert_eq!(r.compute_gutter_width(&state), 4);
    let frame = r.render(&state);
    assert_eq!(frame.rows[0], "  1 l0");
    assert_eq!(frame.rows[1], "  2 l1");
}

#[test]
fn test_decimal_and_helpers() {
    assert_eq!(decimal(0), "0");
    assert_eq!(decimal(1234), "1234");
    assert_eq!(truncate_to_width("a\tb", 4, 4), "a\t");
    assert_eq!(truncate_to_width("a\tb", 5, 4), "a\tb");
    assert_eq!(highlight_line("abcd", 1, 9), "a\x1b[7mbcd\x1b[0m");
    assert_eq!(file_name("/tmp/test.txt"), Some("test.txt".to_string()));
    assert_eq!(file_name("dir/./"), Some("dir".to_string()));
    assert_eq!(file_name("a/.."), None);
    assert_eq!(file_name("/"), None);
}

#[test]
fn test_key_input() {
    assert_eq!(key_input(KeyCode::Char('a'), Modifiers::none(), true), Some(InputEvent::Text("a".to_string())));
    assert_eq!(key_input(KeyCode::Char('A'), Modifiers::shift(), true), Some(InputEvent::Text("A".to_string())));
    assert_eq!(
        key_input(KeyCode::Char('r'), Modifiers::ctrl(), true),
        Some(InputEvent::Key { code: KeyCode::Char('r'), modifiers: Modifiers::ctrl() })
    );
    assert_eq!(key_input(KeyCode::Escape, Modifiers::none(), true), Some(key(KeyCode::Escape)));
    assert_eq!(key_input(KeyCode::Char('a'), Modifiers::none(), false), None);
}

#[test]
fn test_config_defaults_functions() {
    assert_eq!(default_tab_width(), 4);
    assert!(!default_skk_enabled());
}

#[test]
fn test_parse_trims_and_takes_argument() {
    let reg = CommandRegistry::new();
    assert_eq!(reg.parse("  open  a b \t"), Ok(Command::OpenFile(" a b".to_string())));
    assert_eq!(reg.parse("wq"), Ok(Command::SaveFile));
    assert_eq!(reg.parse("   "), Err(ParseCommandError::UnknownCommand("".to_string())));
    assert_eq!(reg.parse("force-quit"), Ok(Command::ForceQuit));
}

#[test]
fn test_toggle_case_cases() {
    let mut state = state_with("aB1", Position::new(0, 0));
    state.toggle_case();
    state.toggle_case();
    state.toggle_case();
    assert_eq!(state.buffer.to_string(), "Ab1");
    assert_eq!(state.selection.head, Position::new(0, 3));
    state.toggle_case();
    assert_eq!(state.buffer.to_string(), "Ab1");
    assert!(state.undo());
    assert_eq!(state.buffer.to_string(), "Ab1".replace('b', "B"));
}

#[test]
fn test_indent_then_undo() {
    let mut state = state_with("a\nb\nc", Position::new(1, 0));
    state.indent_selection();
    assert_eq!(state.buffer.to_string(), "a\n\tb\nc");
    assert!(state.undo());
    assert_eq!(state.buffer.to_string(), "a\nb\nc");
}

#[test]
fn test_unindent_without_tabs_changes_nothing() {
    let mut state = state_with("a\n\tb", Position::new(0, 0));
    state.unindent_selection();
    assert_eq!(state.buffer.to_string(), "a\n\tb");
    assert!(!state.can_undo());
    state.selection = Selection::new(Position::new(0, 0), Position::new(1, 2));
    state.unindent_selection();
    assert_eq!(state.buffer.to_string(), "a\nb");
    assert_eq!(state.selection, Selection::new(Position::new(0, 0), Position::new(1, 1)));
}

#[test]
fn test_jump_matching_pair_nested() {
    let mut state = state_with("f(a[b](c))", Position::new(0, 9));
    state.jump_matching_pair();
    assert_eq!(state.selection.head, Position::new(0, 1));
    state.selection = Selection::cursor(Position::new(0, 3));
    state.jump_matching_pair();
    assert_eq!(state.selection.head, Position::new(0, 5));
    state.selection = Selection::cursor(Position::new(0, 0));
    state.jump_matching_pair();
    assert_eq!(state.selection.head, Position::new(0, 0));
}

#[test]
fn test_select_line_last() {
    let mut state = state_with("ab\ncd", Position::new(1, 1));
    state.select_line();
    assert_eq!(state.selection, Selection::new(Position::new(1, 0), Position::new(1, 2)));
}

#[test]
fn test_words_across_lines() {
    let mut state = state_with("ab  \ncd", Position::new(0, 0));
    state.move_word_forward();
    assert_eq!(state.selection.head, Position::new(1, 0));
    state.move_word_backward();
    assert_eq!(state.selection.head, Position::new(0, 4));
}

#[test]
fn test_execute_save_and_open_requests() {
    let mut state = state_with("text", Position::new(0, 0));
    assert_eq!(
        execute_command(Command::SaveFile, &mut state),
        AppAction::ShowMessage("Error saving: WriteFailed".to_string())
    );
    state.file_path = Some("f.txt".to_string());
    assert_eq!(
        execute_command(Command::SaveFile, &mut state),
        AppAction::WriteFile { path: "f.txt".to_string(), contents: "text".to_string() }
    );
    assert_eq!(
        execute_command(Command::OpenFile("g.txt".to_string()), &mut state),
        AppAction::ReadFile("g.txt".to_string())
    );
    assert_eq!(execute_command(Command::Redo, &mut state), AppAction::ShowMessage("Nothing to redo".to_string()));
}

fn app() -> App {
    App::new(40, 5, Config::default())
}

fn typed(app: &mut App, text: &str) -> AppAction {
    app.handle_event(InputEvent::Text(text.to_string()))
}

#[test]
fn test_app_insert_and_quit() {
    let mut app = app();
    typed(&mut app, "s");
    assert_eq!(app.state.mode, EditorMode::Insert);
    typed(&mut app, "hi");
    app.handle_event(key(KeyCode::Enter));
    app.handle_event(key(KeyCode::Tab));
    app.handle_event(key(KeyCode::Backspace));
    assert_eq!(app.state.buffer.to_string(), "hi\n");
    app.handle_event(key(KeyCode::Escape));
    assert_eq!(app.state.mode, EditorMode::Normal);
    typed(&mut app, ";");
    typed(&mut app, "q");
    assert_eq!(app.handle_event(key(KeyCode::Enter)), AppAction::Continue);
    assert_eq!(app.state.message, Some("Unsaved changes. Use :q! to force quit.".to_string()));
    assert!(!app.should_quit);
    typed(&mut app, ";");
    typed(&mut app, "q!");
    app.handle_event(key(KeyCode::Enter));
    assert!(app.should_quit);
}

#[test]
fn test_app_write_quit() {
    let mut app = app();
    app.finish_read("doc.txt", Ok("abc".to_string()));
    assert_eq!(app.state.file_path, Some("doc.txt".to_string()));
    typed(&mut app, "x");
    typed(&mut app, ";");
    typed(&mut app, "wq");
    let action = app.handle_event(key(KeyCode::Enter));
    assert_eq!(action, AppAction::WriteFile { path: "doc.txt".to_string(), contents: "bc".to_string() });
    assert!(!app.should_quit);
    assert_eq!(app.finish_write("doc.txt", Ok(())), AppAction::Continue);
    assert!(app.should_quit);
    assert_eq!(app.state.message, Some("Saved".to_string()));
}

#[test]
fn test_app_failed_write_keeps_file_dirty() {
    let mut app = app();
    typed(&mut app, "s");
    typed(&mut app, "z");
    app.handle_event(key(KeyCode::Escape));
    typed(&mut app, ";");
    typed(&mut app, "w out.txt");
    let action = app.handle_event(key(KeyCode::Enter));
    assert_eq!(action, AppAction::WriteFile { path: "out.txt".to_string(), contents: "z".to_string() });
    app.finish_write("out.txt", Err(FileError::WriteFailed));
    assert_eq!(app.state.message, Some("Error saving: WriteFailed".to_string()));
    assert!(app.state.dirty);
    assert_eq!(app.state.file_path, None);
}

#[test]
fn test_app_command_line_messages() {
    let mut app = app();
    typed(&mut app, ";");
    typed(&mut app, "open");
    app.handle_event(key(KeyCode::Enter));
    assert_eq!(app.state.message, Some("open requires a path".to_string()));
    typed(&mut app, ";");
    typed(&mut app, "frob x");
    app.handle_event(key(KeyCode::Backspace));
    app.handle_event(key(KeyCode::Backspace));
    app.handle_event(key(KeyCode::Enter));
    assert_eq!(app.state.message, Some("Unknown command: frob".to_string()));
    typed(&mut app, ";");
    typed(&mut app, "open other.txt");
    assert_eq!(app.handle_event(key(KeyCode::Enter)), AppAction::ReadFile("other.txt".to_string()));
    app.finish_read("other.txt", Err(FileError::NotFound));
    assert_eq!(app.state.message, Some("Error opening file: NotFound".to_string()));
}

#[test]
fn test_app_search_mode() {
    let mut app = app();
    app.finish_read("f", Ok("alpha\nbeta".to_string()));
    typed(&mut app, "/");
    assert_eq!(app.state.mode, EditorMode::Search);
    typed(&mut app, "bet");
    app.handle_event(key(KeyCode::Enter));
    assert_eq!(app.state.mode, EditorMode::Normal);
    assert_eq!(app.state.selection.head, Position::new(1, 0));
    typed(&mut app, "/");
    typed(&mut app, "zz");
    app.handle_event(key(KeyCode::Enter));
    assert_eq!(app.state.message, Some("Pattern not found: zz".to_string()));
}

#[test]
fn test_app_kana_input() {
    let mut config = Config::default();
    config.skk_enabled = true;
    let mut app = App::new(40, 5, config);
    typed(&mut app, "s");
    app.handle_event(InputEvent::Key { code: KeyCode::Char('j'), modifiers: Modifiers::ctrl() });
    assert_eq!(app.state.skk_engine.state, SkkState::Hiragana);
    typed(&mut app, "nihonngo ");
    assert_eq!(app.state.skk_engine.state, SkkState::Converting);
    app.handle_event(key(KeyCode::Enter));
    assert_eq!(app.state.buffer.to_string(), "日本語");
    assert_eq!(app.state.selection.head, Position::new(0, 3));
}

#[test]
fn test_app_resize_and_dictionary() {
    let mut app = app();
    app.handle_event(InputEvent::Resize { rows: 30, cols: 100 });
    assert_eq!(app.renderer.width, 100);
    assert_eq!(app.renderer.height, 30);
    app.load_dictionary(false, Ok("ねこ /猫/\n".to_string()));
    assert_eq!(app.state.skk_engine.dict.lookup("ねこ"), Some(&vec!["猫".to_string()]));
    app.load_dictionary(true, Err("missing".to_string()));
    assert_eq!(app.state.message, Some("SKK system dictionary load failed: missing".to_string()));
}

#[test]
fn test_char_idx_to_byte_idx() {
    assert_eq!(char_idx_to_byte_idx("aあb", 0), 0);
    assert_eq!(char_idx_to_byte_idx("aあb", 1), 1);
    assert_eq!(char_idx_to_byte_idx("aあb", 2), 4);
    assert_eq!(char_idx_to_byte_idx("aあb", 3), 5);
    assert_eq!(char_idx_to_byte_idx("aあb", 10), 5);
}

#[test]
fn test_char_display_width() {
    assert_eq!(char_display_width('\t', 4, 1), 3);
    assert_eq!(char_display_width('\t', 4, 4), 4);
    assert_eq!(char_display_width('a', 4, 0), 1);
    assert_eq!(char_display_width('日', 4, 0), 2);
    assert_eq!(char_display_width('\u{1}', 4, 0), 0);
}

#[test]
fn test_dictionary_jisyo_text() {
    let mut dict = Dictionary::new();
    assert_eq!(dict.to_jisyo_text(), "\n");
    dict.add("ねこ", &["猫", "ネコ"]);
    dict.add("いぬ", &["犬"]);
    dict.add("a", &[]);
    assert_eq!(dict.to_jisyo_text(), "a //\nいぬ /犬/\nねこ /猫/ネコ/\n");
    let mut back = Dictionary::new();
    back.load_from_str(&dict.to_jisyo_text());
    assert_eq!(back.lookup("ねこ"), Some(&vec!["猫".to_string(), "ネコ".to_string()]));
}

#[test]
fn test_law_pending_romaji_keeps_text() {
    let mut config = Config::default();
    config.skk_enabled = true;
    let mut app = App::new(40, 5, config);
    typed(&mut app, "s");
    app.handle_event(InputEvent::Key { code: KeyCode::Char('j'), modifiers: Modifiers::ctrl() });
    typed(&mut app, "k");
    assert_eq!(app.state.buffer.to_string(), "");
    typed(&mut app, "a");
    assert_eq!(app.state.buffer.to_string(), "か");
}

#[test]
fn test_app_kana_paste_feeds_each_char() {
    let mut config = Config::default();
    config.skk_enabled = true;
    let mut app = App::new(40, 5, config);
    typed(&mut app, "s");
    app.handle_event(InputEvent::Key { code: KeyCode::Char('j'), modifiers: Modifiers::ctrl() });
    app.handle_event(InputEvent::Paste("kak".to_string()));
    assert_eq!(app.state.buffer.to_string(), "か");
    assert_eq!(app.state.skk_engine.preedit, "k");
    app.handle_event(InputEvent::Paste("i".to_string()));
    assert_eq!(app.state.buffer.to_string(), "かき");
}

#[test]
fn test_render_without_tabs_needs_no_tab_width() {
    let r = Renderer::new(40, 3, 0, false, false);
    let mut state = state_with("hello\nworld", Position::new(1, 2));
    let frame = r.render(&state);
    assert_eq!(frame.rows.len(), 3);
    assert_eq!(frame.rows[0], "hello");
    assert_eq!(frame.rows[1], "world");
    assert_eq!(frame.rows[2], format!("-- NORMAL -- [No Name]{}2:3", " ".repeat(14)));
    assert_eq!(r.cursor_position(&state), (2, 1));
    state.mode = EditorMode::Command;
    state.command_buffer = "w".to_string();
    assert_eq!(r.render(&state).rows[2], ":w");
}

#[test]
fn test_truncate_cuts_before_an_unmeasured_tab() {
    assert_eq!(truncate_to_width("abc\td", 2, 0), "ab");
    assert_eq!(truncate_to_width("abc", 5, 0), "abc");
}

#[test]
fn test_law_delete_undo_redo() {
    let mut state = state_with("one\ntwo\nthree", Position::new(0, 1));
    state.selection = Selection::new(Position::new(2, 2), Position::new(0, 1));
    state.delete_selection();
    assert_eq!(state.buffer.to_string(), "oree");
    assert!(state.undo());
    assert_eq!(state.buffer.to_string(), "one\ntwo\nthree");
    assert!(state.redo());
    assert_eq!(state.buffer.to_string(), "oree");
    assert!(state.can_undo());
    assert!(!state.can_redo());
}

#[test]
fn test_law_undo_then_redo_after_several_changes() {
    let mut state = state_with("ab\ncd", Position::new(1, 2));
    state.insert_at_cursor("\nxy");
    state.selection = Selection::cursor(Position::new(0, 0));
    state.delete_char();
    let after = state.buffer.to_string();
    assert_eq!(after, "b\ncd\nxy");
    assert!(state.undo());
    assert_eq!(state.buffer.to_string(), "ab\ncd\nxy");
    assert!(state.redo());
    assert_eq!(state.buffer.to_string(), after);
    assert!(!state.redo());
    assert_eq!(state.buffer.to_string(), after);
}

#[test]
fn test_app_new_is_fresh() {
    let mut config = Config::default();
    config.skk_enabled = true;
    let app = App::new(20, 4, config);
    let st = &app.state;
    assert_eq!(st.mode, EditorMode::Normal);
    assert!(!st.dirty);
    assert_eq!(st.file_path, None);
    assert_eq!(st.command_buffer, "");
    assert_eq!(st.search_query, "");
    assert_eq!(st.yank_buffer, "");
    assert!(!st.can_undo());
    assert!(!st.can_redo());
    assert_eq!(st.skk_engine.state, SkkState::Direct);
    assert!(st.skk_enabled);
    assert_eq!(app.registry.parse("wq"), Ok(Command::SaveFile));
}

#[test]
fn test_app_kana_backspace_cancels() {
    let mut config = Config::default();
    config.skk_enabled = true;
    let mut app = App::new(40, 5, config);
    typed(&mut app, "s");
    app.handle_event(InputEvent::Key { code: KeyCode::Char('j'), modifiers: Modifiers::ctrl() });
    typed(&mut app, "ak");
    assert_eq!(app.state.buffer.to_string(), "あ");
    assert_eq!(app.state.skk_engine.preedit, "k");
    app.handle_event(key(KeyCode::Backspace));
    assert_eq!(app.state.skk_engine.preedit, "");
    assert_eq!(app.state.skk_engine.reading, "");
    assert_eq!(app.state.skk_engine.state, SkkState::Hiragana);
    assert_eq!(app.state.buffer.to_string(), "あ");
}

#[test]
fn test_law_right_then_left() {
    let mut state = state_with("ab\nc", Position::new(0, 2));
    state.move_cursor_right();
    assert_eq!(state.selection.head, Position::new(1, 0));
    state.move_cursor_left();
    assert_eq!(state.selection, Selection::cursor(Position::new(0, 2)));
    let mut start = state_with("ab", Position::new(0, 0));
    start.move_cursor_left();
    assert_eq!(start.selection, Selection::cursor(Position::new(0, 0)));
}

#[test]
fn test_law_rows_ignore_selection_direction() {
    let r = Renderer::new(20, 3, 4, true, false);
    let mut s1 = state_with("hello\nworld", Position::new(0, 1));
    s1.selection = Selection::new(Position::new(0, 1), Position::new(1, 3));
    let mut s2 = state_with("hello\nworld", Position::new(0, 1));
    s2.selection = Selection::new(Position::new(1, 3), Position::new(0, 1));
    let f1 = r.render(&s1);
    let f2 = r.render(&s2);
    assert_eq!(f1.rows[..2], f2.rows[..2]);
    assert_eq!(f1.rows[0], "1 h\x1b[7mello\x1b[0m");
}

#[test]
fn test_law_candidate_index_in_range() {
    let mut e = SkkEngine::new();
    e.toggle();
    for c in "tekisuto ".chars() {
        e.process_char(c);
    }
    assert_eq!(e.state, SkkState::Converting);
    for _ in 0..5 {
        e.next_candidate();
        assert!(e.candidate_index < e.candidates.len());
    }
    for _ in 0..5 {
        e.previous_candidate();
        assert!(e.candidate_index < e.candidates.len());
    }
    e.cancel();
    assert_eq!(e.state, SkkState::Hiragana);
    assert_eq!(e.candidate_index, 0);
}

#[test]
fn test_scroll_up_without_text_rows() {
    let mut r = Renderer::new(10, 1, 4, false, false);
    r.scroll_offset = 5;
    let state = state_with("a\nb\nc", Position::new(2, 0));
    r.ensure_cursor_visible(&state);
    assert_eq!(r.scroll_offset, 2);
}
