# codex_core

The core of a coding agent, verified with Verus.

- `src/` is the library. Every function states in its contract what it computes, and the laws that
  span functions are proof functions beside them:
  - `bash.rs`, `syntax.rs`: scripts that hold nothing but plain commands;
  - `message_history.rs` and `message_history/`: the history file, with what lookups find
    (`log.rs`), how records are laid out (`framing.rs`), that lookups find what appends wrote
    (`roundtrip.rs`) and that appends at the same time do not mix (`concurrent.rs`);
  - `internal_storage.rs`: state that is kept between runs;
  - `apply_patch.rs`, `plan_tool.rs`, `protocol.rs`, `openai_tools.rs`: tools and their messages;
  - `util.rs`: delays between retries;
  - `text.rs`, `path.rs`, `file_map.rs`, `config.rs`: what the others are built from.
- `tests/` runs the library on concrete values.
- `app/` does the input and output that the library asks for.

Functions that need files, the clock or the user are step functions: they take the state and an
event, and give the next state and an action. `app/` performs the actions.
