//! A small modal text editor core: a line buffer with undo/redo, a
//! selection model, command parsing, key mapping, an SKK kana input
//! engine and a screen renderer.
pub mod position;
pub mod selection;
pub mod undo;
pub mod text;
pub mod width;
pub mod buffer;
pub mod history;
pub mod skk;
pub mod romaji;
pub mod gojuon;
pub mod editor_state;
pub mod search;
pub mod motion;
pub mod editing;
pub mod file_io;
pub mod command;
pub mod input;
pub mod keymap;
pub mod placement;
pub mod app;
pub mod renderer;
pub mod config;
pub mod laws;
pub mod jisyo;
pub mod terminal;
