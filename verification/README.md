# herd

The logic of HERD, a terminal launcher for llama-server, as a library whose
behaviour is stated in contracts and proved with Verus.

What is here is the part of the launcher that can be stated over plain
values: the command line, the `:` bar's vocabulary and where each command
goes, the key tables and the footers fitted to a pane, the session's own
event handling (overlays, the command bar, quitting, the Logs screen), what
a launch or a download reports, the log scrollback, the screen geometry,
and the overlay and table rows that are text before they are drawn.
Not here: reading keys and drawing frames, supervising the llama-server
process, and the decisions that rest on the parsed `models.ini` — the
Models, Hub, Router, Settings and Test screens' own keys, the config
picker, and the memory budget, which is floating point.

## Layout

- `src/text.rs` — character-level helpers (trimming, words, lines,
  decimals) with their specifications; widths are counted in characters.
- `src/cli.rs` — `herd [--config <path>]` and `--help`.
- `src/commands.rs` — the command table, and the laws that keep it
  consistent (names unique, every command findable by its own probe).
- `src/engine/executor.rs` — what a command line means: where it is routed,
  `launch <model> -- args`, `router --max N --idle S`, and what a launch
  or a download reports.
- `src/keys.rs` — the key tables, footers fitted to a width, key names, and
  the laws tying the tables to the keys that are actually handled.
- `src/app.rs` — screens, modes, cursor movement, the global keys, the log
  buffer, the server's lifecycle as far as it is text.
- `src/session.rs` — what each event does to the session (keys, status
  snapshots, probe results, resizes) and which action it asks the
  terminal loop to perform.
- `src/layout.rs` — the screen's regions, split by ratatui's layout
  solver (stated exactly for an area that holds what the constraints ask
  for), and how far a page moves on each screen.
- `src/components/` — the text of each screen and overlay.
- `tests/` — the behaviour checked on concrete values.
- `app/main.rs` — the binary: reads the arguments and answers `--help`;
  `app/download.rs` and `app/budget.rs` hold the floating-point figures
  (the download bar, the memory-budget panel).

Run the proofs with Verus on `src/lib.rs`; the tests are ordinary Rust tests
against the compiled library.
