# wasdf

A WASD-keyed terminal file manager built around one intent pipeline:
key → intent → plan → worker → async result → reducer → render.

- `src/` is the verified library: the application state and its reducer,
  the dispatch step with its confirmation gate, the mode stack, the keymap
  and its conditions, the s-expression reader and the configuration codec,
  the resolver chain that turns operations into commands, the command and
  extension registries, the Select machinery (ranking, completion, command
  options), the preview extension's decoding, paging and search, the archive
  extension, the list and screen geometry, the panel texts and the border.
  Every function there whose result can be described carries a contract
  (the skim matcher's constructor only builds the outside matcher, which
  Verus cannot see into), and the properties that span
  several calls (the mode stack's shape under every transition, destructive
  operations waiting for confirmation, reading a table after writing it, the
  list window keeping the cursor visible) are proof functions beside the
  code they speak of.
- `app/` is the program around it: the terminal, the event loop, the worker
  threads, the filesystem and process calls, the Scheme engine, dynamic
  extension libraries, and the drawing with ratatui.
- `tests/` runs the library on concrete values.
