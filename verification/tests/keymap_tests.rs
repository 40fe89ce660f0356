use dim::command::Command;
use dim::editor_state::EditorMode;
use dim::input::{InputEvent, KeyCode, Modifiers};
use dim::keymap::Keymap;

#[test]
fn test_normal_move_left() {
    let ev = InputEvent::Key {
        code: KeyCode::Left,
        modifiers: Modifiers::none(),
    };
    assert_eq!(Keymap::handle(&ev, EditorMode::Normal), Some(Command::MoveLeft));
}

#[test]
fn test_normal_move_right() {
    let ev = InputEvent::Key {
        code: KeyCode::Right,
        modifiers: Modifiers::none(),
    };
    assert_eq!(Keymap::handle(&ev, EditorMode::Normal), Some(Command::MoveRight));
}

#[test]
fn test_normal_colemak_movement() {
    assert_eq!(Keymap::handle(&InputEvent::Text("m".to_string()), EditorMode::Normal), Some(Command::MoveLeft));
    assert_eq!(Keymap::handle(&InputEvent::Text("n".to_string()), EditorMode::Normal), Some(Command::MoveDown));
    assert_eq!(Keymap::handle(&InputEvent::Text("e".to_string()), EditorMode::Normal), Some(Command::MoveUp));
    assert_eq!(Keymap::handle(&InputEvent::Text("i".to_string()), EditorMode::Normal), Some(Command::MoveRight));
}

#[test]
fn test_normal_enter_insert() {
    let ev = InputEvent::Text("s".to_string());
    assert_eq!(Keymap::handle(&ev, EditorMode::Normal), Some(Command::EnterInsertMode));
}

#[test]
fn test_normal_enter_command() {
    let ev = InputEvent::Text(";".to_string());
    assert_eq!(Keymap::handle(&ev, EditorMode::Normal), Some(Command::EnterCommandMode));
}

#[test]
fn test_normal_undo() {
    let ev = InputEvent::Text("z".to_string());
    assert_eq!(Keymap::handle(&ev, EditorMode::Normal), Some(Command::Undo));
}

#[test]
fn test_normal_redo() {
    let ev = InputEvent::Text("Z".to_string());
    assert_eq!(Keymap::handle(&ev, EditorMode::Normal), Some(Command::Redo));
}

#[test]
fn test_normal_delete() {
    let ev = InputEvent::Text("x".to_string());
    assert_eq!(Keymap::handle(&ev, EditorMode::Normal), Some(Command::DeleteSelection));
}

#[test]
fn test_normal_yank() {
    let ev = InputEvent::Text("c".to_string());
    assert_eq!(Keymap::handle(&ev, EditorMode::Normal), Some(Command::YankSelection));
}

#[test]
fn test_normal_paste() {
    let ev = InputEvent::Text("v".to_string());
    assert_eq!(Keymap::handle(&ev, EditorMode::Normal), Some(Command::PasteAfter));
}

#[test]
fn test_normal_paste_before() {
    let ev = InputEvent::Text("V".to_string());
    assert_eq!(Keymap::handle(&ev, EditorMode::Normal), Some(Command::PasteBefore));
}

#[test]
fn test_normal_change() {
    let ev = InputEvent::Text("w".to_string());
    assert_eq!(Keymap::handle(&ev, EditorMode::Normal), Some(Command::ChangeSelection));
}

#[test]
fn test_insert_returns_none() {
    let ev = InputEvent::Text("a".to_string());
    assert_eq!(Keymap::handle(&ev, EditorMode::Insert), None);
}

#[test]
fn test_command_escape() {
    let ev = InputEvent::Key {
        code: KeyCode::Escape,
        modifiers: Modifiers::none(),
    };
    assert_eq!(
        Keymap::handle(&ev, EditorMode::Command),
        Some(Command::EnterNormalMode)
    );
}

#[test]
fn test_search_escape() {
    let ev = InputEvent::Key {
        code: KeyCode::Escape,
        modifiers: Modifiers::none(),
    };
    assert_eq!(
        Keymap::handle(&ev, EditorMode::Search),
        Some(Command::EnterNormalMode)
    );
}

#[test]
fn test_normal_unknown_key() {
    let ev = InputEvent::Text("q".to_string());
    assert_eq!(Keymap::handle(&ev, EditorMode::Normal), None);
}

