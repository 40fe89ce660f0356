use dim::command::{Command, CommandRegistry, ParseCommandError};

#[test]
fn test_command_variants_exist() {
    let cmds = vec![
        Command::MoveLeft,
        Command::MoveRight,
        Command::MoveUp,
        Command::MoveDown,
        Command::PageUp,
        Command::PageDown,
        Command::MoveWordForward,
        Command::MoveWordBackward,
        Command::MoveLineStart,
        Command::MoveLineEnd,
        Command::MoveFileStart,
        Command::MoveFileEnd,
        Command::EnterInsertMode,
        Command::EnterNormalMode,
        Command::EnterCommandMode,
        Command::EnterSearchMode,
        Command::VisualMode,
        Command::SelectLine,
        Command::DeleteSelection,
        Command::ChangeSelection,
        Command::YankSelection,
        Command::PasteBefore,
        Command::PasteAfter,
        Command::OpenLineAbove,
        Command::OpenLineBelow,
        Command::Undo,
        Command::Redo,
        Command::Quit,
        Command::ForceQuit,
        Command::OpenFile("test.txt".to_string()),
        Command::SaveFile,
        Command::SearchForward("hello".to_string()),
        Command::SkkToggle,
    ];
    assert!(!cmds.is_empty());
}

#[test]
fn test_registry_parse_write() {
    let reg = CommandRegistry::new();
    assert_eq!(reg.parse("write"), Ok(Command::SaveFile));
    assert_eq!(reg.parse("w"), Ok(Command::SaveFile));
}

#[test]
fn test_registry_parse_quit() {
    let reg = CommandRegistry::new();
    assert_eq!(reg.parse("quit"), Ok(Command::Quit));
    assert_eq!(reg.parse("q"), Ok(Command::Quit));
}

#[test]
fn test_registry_parse_force_quit() {
    let reg = CommandRegistry::new();
    assert_eq!(reg.parse("q!"), Ok(Command::ForceQuit));
}

#[test]
fn test_registry_parse_open_file() {
    let reg = CommandRegistry::new();
    assert_eq!(
        reg.parse("open file.txt"),
        Ok(Command::OpenFile("file.txt".to_string()))
    );
}

#[test]
fn test_registry_parse_open_missing_arg() {
    let reg = CommandRegistry::new();
    assert_eq!(
        reg.parse("open"),
        Err(ParseCommandError::MissingArgument(
            "open requires a file path".to_string()
        ))
    );
}

#[test]
fn test_registry_parse_unknown() {
    let reg = CommandRegistry::new();
    assert_eq!(
        reg.parse("foobar"),
        Err(ParseCommandError::UnknownCommand("foobar".to_string()))
    );
}

#[test]
fn test_registry_parse_empty() {
    let reg = CommandRegistry::new();
    assert_eq!(
        reg.parse(""),
        Err(ParseCommandError::UnknownCommand("".to_string()))
    );
}

#[test]
fn test_registry_parse_undo() {
    let reg = CommandRegistry::new();
    assert_eq!(reg.parse("undo"), Ok(Command::Undo));
}

#[test]
fn test_registry_parse_redo() {
    let reg = CommandRegistry::new();
    assert_eq!(reg.parse("redo"), Ok(Command::Redo));
}

