use dim::terminal::TerminalError;
use std::io;

#[test]
fn test_terminal_error_display_io() {
    let io_err = io::Error::new(io::ErrorKind::NotFound, "test");
    let err = TerminalError::from(io_err);
    assert!(err.to_string().contains("IO error"));
}

#[test]
fn test_terminal_error_display_unsupported() {
    let err = TerminalError::UnsupportedTerminal;
    assert_eq!(err.to_string(), "Unsupported terminal");
}

#[test]
fn terminal_error_io_keeps_message() {
    let io_err = io::Error::new(io::ErrorKind::Other, "disk gone");
    let err = TerminalError::from(io_err);
    assert_eq!(err.to_string(), "IO error: disk gone");
}
