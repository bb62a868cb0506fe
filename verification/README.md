# mstodo

The local logic of ms-todo, a Microsoft To Do client with an offline cache,
an outbox of queued writes and a terminal UI, written in Verus: each
function states what it does in `requires`/`ensures`, and Verus proves it.

## Layout

- `src/` — the verified library.
  - The cache and the outbox: `ops` (operation kinds and states, the rows
    read back from their stored text, the edits
    a queued write makes, the later operations laid over Graph's answer),
    `local_change` (what queueing does to a row, and its rollback),
    `children` (steps and links), `list_extension`, `list_lifecycle`,
    `lists` and `tasks` (applying a full enumeration), `columns` (what a
    task fills next to its JSON), `cascade` (what a
    failed operation takes down with it), `scheduling` (what the worker
    sends and when, and what a restart makes of what was being sent), `sync_state`, `idempotency`,
    `search` (the FTS5 expression), `json` (JSON with a map model).
  - The terminal UI: `update` (the state, and what a key, an event or
    an answer does to it; what it does not hold is listed at its top), `action`, `keybindings` and `help` (the key registry
    and the help screen), `layout` (help's columns), `scope` (the
    sidebar, the Planned and Completed groups), `folders`, `palette`,
    `move_tasks`, `quick_add`, `list_hint`, `selection`, `batch` (what a
    key does to the selection), `steps`,
    `detail_cursor`, `diagnostics`, `task`, `attachments`, `downloads`,
    `app_state`, `glyphs`, `edit`, `width`, `text`.
- `tests/` — tests run against the compiled library.
- `app/` — what stands around it: configuration and the environment,
  opening links, error types with their messages, the latency report,
  the loop that feeds keys, events and answers to `update` (it keeps the
  filter prompt's text as it is typed; a key or an answer the library
  does not handle does nothing there), and
  conversions to and from serde_json values and crossterm keys.

Calls into unicode-width, toml_edit, chrono and serde_json stand behind
trusted wrappers whose contracts name what those crates return.
