# loupe

A terminal viewer for JSONL transcripts of coding-agent sessions (the `stream-json`
format and the Codex format): it watches a directory, reads each run's lines as
they are written, and shows the transcript, the tool calls, the raw lines and a
summary of each run.

## Layout

- `src/` — the library, verified with Verus.
  - `json.rs` — JSON documents as plain values, their compact and indented text;
    parsing goes through serde_json.
  - `text.rs` — characters, lines, decimal numbers, truncation to a byte budget.
  - `run.rs`, `events.rs` — runs, transcript items, statistics and events.
  - `parser.rs`, `codex_parser.rs` — what each line of a transcript says.
  - `streaming.rs` — live accumulation of streamed text and tool input.
  - `watcher.rs` — turning newly read file contents into events, and the set of
    watched files with the ids of their runs.
  - `app.rs` — the viewer's state: events, keys, search, timeouts.
  - `ui/` — what the screen shows: Markdown (read by pulldown-cmark), wrapping and
    search marks, coloured patches (highlighted by syntect), the transcript, the
    tool list, the run summary and list, the status and search bars, the raw view.
- `app/` — the command: argument handling, the file watcher (notify, tokio) and
  drawing with ratatui.
- `tests/` — tests of the library.

Public functions state their results in their `ensures` over spec models. What
the outside crates compute (serde_json's reading of a text, pulldown-cmark's events,
syntect's highlighting, chrono's parsing) is given a name over the inputs it depends
on; the clock and the syntect default sets are left unstated. Properties that relate
several calls are stated as `law_*` proof functions next to the functions they are
about.
