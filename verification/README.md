# tfs — an SSH file browser with a built-in terminal

`tfs` (terminal-file-send) puts a two-pane SFTP file manager (F2) and an
interactive SSH terminal (F1) on one SSH connection, with a connection
manager to pick and edit servers and F4 to edit a file in the `fresh`
editor.

The decisions of the program live in a library verified with Verus
(`src/`); the event loops, terminal drawing, network and file I/O live in
`app/`, which calls the library.

## Layout

- `src/app.rs` — the two panels: listings, type-to-filter search,
  selection, scrolling, keys and mouse, drag and drop, transfer and edit
  requests.
- `src/picker.rs` — the connection manager: list, search, reorder, the
  edit form and its validation, toolbar and mouse hits.
- `src/terminal.rs` — the terminal screen: key encoding, terminal query
  replies, paste framing, selection, scrollback (over the `vt100` emulator).
- `src/session.rs` — routing events between the two screens, transfer
  status, yes/no prompts, edit outcomes.
- `src/ssh.rs` — transfer planning (breadth-first tree walk), progress,
  outcome summaries, remote path arithmetic, listing order.
- `src/auth.rs` — authentication order, failure reports, host-key prompts.
- `src/config.rs`, `src/editor.rs`, `src/input.rs`, `src/ui.rs`,
  `src/geometry.rs`, `src/text.rs`, `src/paths.rs` — configuration values,
  editor helpers (install plan, temporary names, content digest), input
  events, overlay geometry and text helpers.
- `app/` — `main`, the event loops, SSH/SFTP (`russh`), drawing
  (`ratatui`, `tui-term`), the clipboard and the configuration file.
- `tests/` — tests of the library.

Laws of the library (what every operation keeps, what the search shows,
what the prompts can answer) are public proof functions named `law_*`.
