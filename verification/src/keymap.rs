use vstd::prelude::*;
use crate::command::Command;
use crate::editor_state::EditorMode;
use crate::input::{InputEvent, KeyCode};
use crate::text::to_chars;

verus! {

/// Maps input events to commands, mode by mode.
pub struct Keymap;

/// The command a one-character text stands for in normal mode (the
/// Colemak-DH layout: `m`/`n`/`e`/`i` move, `s` inserts).
pub open spec fn text_binding(t: Seq<char>) -> Option<Command> {
    if t.len() != 1 {
        None
    } else {
        let c = t[0];
        if c == 'm' {
            Some(Command::MoveLeft)
        } else if c == 'n' {
            Some(Command::MoveDown)
        } else if c == 'e' {
            Some(Command::MoveUp)
        } else if c == 'i' {
            Some(Command::MoveRight)
        } else if c == 's' {
            Some(Command::EnterInsertMode)
        } else if c == ';' {
            Some(Command::EnterCommandMode)
        } else if c == '/' {
            Some(Command::EnterSearchMode)
        } else if c == 'x' {
            Some(Command::DeleteSelection)
        } else if c == 'c' {
            Some(Command::YankSelection)
        } else if c == 'v' {
            Some(Command::PasteAfter)
        } else if c == 'V' {
            Some(Command::PasteBefore)
        } else if c == 'z' {
            Some(Command::Undo)
        } else if c == 'Z' {
            Some(Command::Redo)
        } else if c == 'w' {
            Some(Command::ChangeSelection)
        } else {
            None
        }
    }
}

/// The command for an event in normal mode.
pub open spec fn normal_binding(event: InputEvent) -> Option<Command> {
    match event {
        InputEvent::Key { code, modifiers } => match code {
            KeyCode::Left => Some(Command::MoveLeft),
            KeyCode::Right => Some(Command::MoveRight),
            KeyCode::Up => Some(Command::MoveUp),
            KeyCode::Down => Some(Command::MoveDown),
            KeyCode::Home => Some(Command::MoveLineStart),
            KeyCode::End => Some(Command::MoveLineEnd),
            KeyCode::Char(c) => if c == 'r' && modifiers.ctrl {
                Some(Command::Redo)
            } else {
                None
            },
            _ => None,
        },
        InputEvent::Text(t) => text_binding(t@),
        InputEvent::Paste(_) => Some(Command::PasteAfter),
        _ => None,
    }
}

/// The command for an event on the command or search line: Escape and
/// Enter both return to normal mode.
pub open spec fn line_binding(event: InputEvent) -> Option<Command> {
    match event {
        InputEvent::Key { code: KeyCode::Escape, .. } => Some(Command::EnterNormalMode),
        InputEvent::Key { code: KeyCode::Enter, .. } => Some(Command::EnterNormalMode),
        _ => None,
    }
}

/// The command for an event in `mode`; insert mode maps nothing (its
/// input is text).
pub open spec fn binding(event: InputEvent, mode: EditorMode) -> Option<Command> {
    match mode {
        EditorMode::Normal => normal_binding(event),
        EditorMode::Command => line_binding(event),
        EditorMode::Search => line_binding(event),
        EditorMode::Insert => None,
    }
}

impl Keymap {
    /// Maps an input event to a command based on the current editor mode.
    /// Returns `None` if the event should be handled as direct text input
    /// (e.g., typing in Insert or Command mode).
    pub fn handle(event: &InputEvent, mode: EditorMode) -> (r: Option<Command>)
        ensures
            r == binding(*event, mode),
    {
        match mode {
            EditorMode::Normal => Self::handle_normal(event),
            EditorMode::Command => Self::handle_command(event),
            EditorMode::Search => Self::handle_search(event),
            EditorMode::Insert => None,
        }
    }

    fn text_command(text: &String) -> (r: Option<Command>)
        ensures
            r == text_binding(text@),
    {
        let cs = to_chars(text.as_str());
        if cs.len() != 1 {
            return None;
        }
        let c = cs[0];
        if c == 'm' {
            Some(Command::MoveLeft)
        } else if c == 'n' {
            Some(Command::MoveDown)
        } else if c == 'e' {
            Some(Command::MoveUp)
        } else if c == 'i' {
            Some(Command::MoveRight)
        } else if c == 's' {
            Some(Command::EnterInsertMode)
        } else if c == ';' {
            Some(Command::EnterCommandMode)
        } else if c == '/' {
            Some(Command::EnterSearchMode)
        } else if c == 'x' {
            Some(Command::DeleteSelection)
        } else if c == 'c' {
            Some(Command::YankSelection)
        } else if c == 'v' {
            Some(Command::PasteAfter)
        } else if c == 'V' {
            Some(Command::PasteBefore)
        } else if c == 'z' {
            Some(Command::Undo)
        } else if c == 'Z' {
            Some(Command::Redo)
        } else if c == 'w' {
            Some(Command::ChangeSelection)
        } else {
            None
        }
    }

    fn handle_normal(event: &InputEvent) -> (r: Option<Command>)
        ensures
            r == normal_binding(*event),
    {
        match event {
            InputEvent::Key { code, modifiers } => match code {
                KeyCode::Left => Some(Command::MoveLeft),
                KeyCode::Right => Some(Command::MoveRight),
                KeyCode::Up => Some(Command::MoveUp),
                KeyCode::Down => Some(Command::MoveDown),
                KeyCode::Home => Some(Command::MoveLineStart),
                KeyCode::End => Some(Command::MoveLineEnd),
                KeyCode::Char(c) => if *c == 'r' && modifiers.ctrl {
                    Some(Command::Redo)
                } else {
                    None
                },
                _ => None,
            },
            InputEvent::Text(text) => Self::text_command(text),
            InputEvent::Paste(_) => Some(Command::PasteAfter),
            _ => None,
        }
    }

    fn handle_command(event: &InputEvent) -> (r: Option<Command>)
        ensures
            r == line_binding(*event),
    {
        match event {
            InputEvent::Key { code: KeyCode::Escape, .. } => Some(Command::EnterNormalMode),
            InputEvent::Key { code: KeyCode::Enter, .. } => Some(Command::EnterNormalMode),
            _ => None,
        }
    }

    fn handle_search(event: &InputEvent) -> (r: Option<Command>)
        ensures
            r == line_binding(*event),
    {
        match event {
            InputEvent::Key { code: KeyCode::Escape, .. } => Some(Command::EnterNormalMode),
            InputEvent::Key { code: KeyCode::Enter, .. } => Some(Command::EnterNormalMode),
            _ => None,
        }
    }
}

} // verus!
