# tmuxmux-mobile

A touch/keyboard tmux session selector and terminal that speaks SSH
in-process. Its core — everything that decides something — is written in
Verus and proved against its contracts; the UI, the SSH transport and file
I/O are ordinary Rust around it.

## Layout

- `src/` — the verified core:
  - `acs.rs`: the DEC Special Graphics filter in front of the terminal
    parser, a byte-level state machine, with laws on splitting the stream,
    escape sequences passing untouched and no escape byte ever being added;
  - `input.rs`: key and input events to the bytes a terminal expects;
  - `colors.rs`, `render.rs`: cell colors, the background and text runs of
    a row, the grid and the cursor;
  - `config.rs`, `text.rs`: hosts and the names shown for them;
  - `session.rs`, `protocol.rs`: login user, authentication choice, the
    remote tmux commands, `tmux ls` parsing, and the connection worker's
    decisions;
  - `model.rs`: the app state and what each user action or connection
    event does to it.
- `tests/` — tests of the core on concrete values.
- `app/` — egui views, the russh connection worker, the vt100 parser and
  reading and writing `config.json`.
