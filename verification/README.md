# suisei-core

The editing core of a code editor: the buffer and its line model, edits and
undo, multiple selections, search and replace, folding, key maps, the file
preview's parsers (CSV, NumPy, images), git diff and blame parsing, session
and project files, the syntax-scope walk for completion, the flowchart
("logic view") built from a syntax tree, the settings surface and the panels'
key handling.

Every function in `src/` is verified with Verus: its contract is in its
`requires`/`ensures`, and the laws the library keeps across calls (a
comment toggled twice restores the text, a written session reads back the
same, closing a row undoes opening it, and the like) are public proof
functions named `law_*`.

Layout:

- `src/` — the verified library, one module per concern (`buffer`, `edit`,
  `selection`, `search`, `fold`, `git`, `media`, `session`, `scope`,
  `logic`, `logic_view`, `pump`, `grammar`, `settings_panel`, ...). The
  keyboard is a set of steps from a surface's state and a key to its next
  state and an action: `dispatch` for the whole application, then
  `workbench`, `panel_keys` and `surface_keys` for the surfaces it routes to. Calls into outside
  crates (`unicode-width`, `serde_json`, and std's Unicode tables) go through
  small wrappers whose contracts say what those functions do.
- `tests/` — tests run against the compiled library.
- `app/` — what is not verified: file and process I/O, the tree-sitter
  parsers, audio, the clock, the floating-point parts of blame colouring
  and image scaling, and the loops that feed keys and language-service
  events to the library's steps.
