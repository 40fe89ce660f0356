use dim::input::{InputEvent, KeyCode, Modifiers};

#[test]
fn test_keycode_char() {
    let code = KeyCode::Char('a');
    assert_eq!(code, KeyCode::Char('a'));
    assert_ne!(code, KeyCode::Char('b'));
}

#[test]
fn test_modifiers_none() {
    let m = Modifiers::none();
    assert!(!m.shift);
    assert!(!m.ctrl);
    assert!(!m.alt);
    assert!(!m.super_key);
}

#[test]
fn test_modifiers_ctrl() {
    let m = Modifiers::ctrl();
    assert!(m.ctrl);
    assert!(!m.shift);
}

#[test]
fn test_input_event_key() {
    let ev = InputEvent::Key {
        code: KeyCode::Enter,
        modifiers: Modifiers::none(),
    };
    assert_eq!(ev, InputEvent::Key { code: KeyCode::Enter, modifiers: Modifiers::none() });
}

#[test]
fn test_input_event_text() {
    let ev = InputEvent::Text("hello".to_string());
    assert_eq!(ev, InputEvent::Text("hello".to_string()));
}

#[test]
fn test_input_event_paste() {
    let ev = InputEvent::Paste("pasted content".to_string());
    assert_eq!(ev, InputEvent::Paste("pasted content".to_string()));
}

#[test]
fn test_input_event_resize() {
    let ev = InputEvent::Resize { rows: 24, cols: 80 };
    assert_eq!(ev, InputEvent::Resize { rows: 24, cols: 80 });
}

