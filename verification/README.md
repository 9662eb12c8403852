# moon_native

The decisions behind a desktop window for working on a repo's tasks: the board of task
cards and its columns, the keyboard map, the commit pane, the file tabs with their blame,
go-to-definition, diagnostics and code actions, and the panes scripts draw into.

Everything the window decides lives in `src/` and is proved with Verus against its contract:
what a click, a drag, a key or an answer from the backend does to the state, and what the
window is to do next. `app/` holds the glue a window built on the library needs: it turns what
the windowing toolkit reports into the plain values the library takes, and reads the clock,
the environment and the file system for it. The drawing and the event loop of such a window
are not part of this crate.

- `src/board/` - cards, columns, marking, dragging and dropping, filters, tags, the day lines
  of the dated column, and what each board action changes and asks of the backend.
- `src/bindings.rs` - every shortcut in one table, with prefixed chords.
- `src/commit_pane.rs` - staging, the suggested message, commit, push and pull request runs.
- `src/file_pane.rs`, `src/blame.rs`, `src/definition.rs`, `src/definition_ranking.rs`,
  `src/diagnostics.rs`, `src/code_actions.rs` - a file tab and what it asks its language server
  and the repo.
- `src/extension_pane.rs`, `src/window.rs`, `src/polling.rs`, `src/hunks.rs` - the rest of the
  window's rules.
- `src/text.rs`, `src/paths.rs`, `src/input.rs`, `src/model.rs` - shared values.

The public proof functions named `law_*` state what holds across calls: a drop lands where it
was let go of, a column move stays drawn until the server has it, the day before a day is the
day before it, a requested commit goes in once, and so on.
