# arc_client

The verified core of Arc, a desktop HTTP client: the logic behind its
request editor, environments, file tree and dock layout, written in Verus
with every function's behaviour stated in its contract and proved.

## Layout

- `src/` — the library, verified by Verus.
  - `curl.rs` — importing a curl command line as a request.
  - `codegen.rs` — code snippets (curl, fetch, axios, Python, Rust) for a request.
  - `env_file.rs`, `env_fs.rs`, `env_store.rs` — environments, the active
    environment, `{{variable}}` interpolation and the environment editor.
  - `http.rs`, `request.rs` — preparing a request for sending and shaping
    the response.
  - `playground.rs` — the request editor: key/value tables, the saved
    snapshot and the dirty flag, the request it sends, the response pane.
  - `tab_manager.rs` — the open request tabs.
  - `project_tree.rs`, `request_file.rs`, `paths.rs` — the workspace file
    tree, request files and where configuration lives.
  - `dock.rs`, `dock_skin.rs`, `footer.rs` — the dock layout state and its
    drag-and-drop policy.
  - `themes.rs`, `order.rs`, `workspace_list.rs`, `tags.rs`, `icons.rs`,
    `panel_icons.rs`, `actions.rs`, `tree_actions.rs` — smaller pieces of UI state.
- `tests/` — tests run against the compiled library.
- `app/` — a command-line front end: file and network I/O, serde, the
  HTTP client runtime.
