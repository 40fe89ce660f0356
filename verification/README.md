# dim

A small modal text editor for the terminal, with SKK-style kana input.
The editing core is a Verus library whose behaviour is stated in
`requires`/`ensures` contracts and proved.

## Layout

- `src/` — the verified library:
  - `position`, `selection` — cursor positions and selections;
  - `text`, `buffer` — the line buffer and its model (a sequence of lines
    without line breaks), insertion, deletion, display widths;
  - `undo`, `history` — transactions and the undo/redo stacks, and the
    line-count bookkeeping that keeps every recorded change replayable;
  - `editor_state`, `motion`, `editing`, `search`, `file_io` — the editor
    state and its commands;
  - `command`, `keymap`, `input` — command-line parsing and key bindings;
  - `skk`, `romaji`, `jisyo` — the kana input engine and its dictionary;
  - `renderer` — turning the state into screen rows;
  - `terminal` — the error type of terminal operations and its message;
  - `app` — command execution and the event-driven application state,
    which hands file work back to its caller;
  - `placement`, `laws` — facts about positions staying in the text, and
    the laws that relate several operations.
- `app/` — the terminal program: raw mode, key events, drawing, file
  reading and writing, and the TOML configuration file.
- `tests/` — tests of the library.
