use vstd::prelude::*;
use crate::text::char_string;

verus! {

/// A key, independent of the terminal library.
#[derive(Debug, Clone, Copy, PartialEq, Eq, Structural)]
pub enum KeyCode {
    Backspace,
    Enter,
    Left,
    Right,
    Up,
    Down,
    Home,
    End,
    PageUp,
    PageDown,
    Tab,
    Delete,
    Escape,
    Char(char),
    F(u8),
    Null,
}

/// The modifier keys held with a key.
#[derive(Debug, Clone, Copy, PartialEq, Eq, Structural)]
pub struct Modifiers {
    pub shift: bool,
    pub ctrl: bool,
    pub alt: bool,
    pub super_key: bool,
}

impl Default for Modifiers {
    fn default() -> (m: Self)
        ensures
            !m.shift && !m.ctrl && !m.alt && !m.super_key,
    {
        Modifiers { shift: false, ctrl: false, alt: false, super_key: false }
    }
}

impl Modifiers {
    /// No modifier held.
    pub fn none() -> (m: Self)
        ensures
            !m.shift && !m.ctrl && !m.alt && !m.super_key,
    {
        Modifiers { shift: false, ctrl: false, alt: false, super_key: false }
    }

    /// Only Ctrl held.
    pub fn ctrl() -> (m: Self)
        ensures
            !m.shift && m.ctrl && !m.alt && !m.super_key,
    {
        Modifiers { shift: false, ctrl: true, alt: false, super_key: false }
    }

    /// Only Shift held.
    pub fn shift() -> (m: Self)
        ensures
            m.shift && !m.ctrl && !m.alt && !m.super_key,
    {
        Modifiers { shift: true, ctrl: false, alt: false, super_key: false }
    }
}

/// An input event, independent of the terminal library.
#[derive(Debug, Clone, PartialEq, Eq)]
pub enum InputEvent {
    Key { code: KeyCode, modifiers: Modifiers },
    Text(String),
    Paste(String),
    Resize { rows: u16, cols: u16 },
}

/// A key press: a character typed without Ctrl, Alt or Super is text;
/// every other key is a key event with its modifiers. Releases and repeats
/// are dropped.
pub fn key_input(code: KeyCode, modifiers: Modifiers, pressed: bool) -> (r: Option<InputEvent>)
    ensures
        !pressed ==> r is None,
        pressed ==> match code {
            KeyCode::Char(c) if !modifiers.ctrl && !modifiers.alt && !modifiers.super_key => r matches Some(
                InputEvent::Text(t),
            ) && t@ == seq![c],
            _ => r == Some(InputEvent::Key { code, modifiers }),
        },
{
    if !pressed {
        return None;
    }
    match code {
        KeyCode::Char(c) => {
            if !modifiers.ctrl && !modifiers.alt && !modifiers.super_key {
                Some(InputEvent::Text(char_string(c)))
            } else {
                Some(InputEvent::Key { code, modifiers })
            }
        },
        _ => Some(InputEvent::Key { code, modifiers }),
    }
}

} // verus!
