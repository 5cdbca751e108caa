# Scribe

Scribe manages a directory of AsciiDoc notes: it lists them, creates them
from templates, searches them, previews and exports them with `asciidoctor`,
and soft-deletes them into a trash directory from which they can be restored.

The decisions are made by a library verified with Verus; the terminal, the
file system and the converters are driven by a thin program around it.

## Layout

- `src/` — the verified library
  - `text.rs` — character-level helpers (trimming, case, replacing, digits)
  - `paths.rs` — joining paths and expanding `~`
  - `notes.rs` — file names, sizes, sorting, the trash, the directory walk,
    document titles
  - `templates.rs` — the built-in templates and how they are filled in
  - `render.rs` — turning converter HTML into preview text; export plans
  - `cli.rs` — the command line and what a run does with it
  - `app.rs` — the state of the interface: the listing, the search, the
    highlight, the status history, the recent directories
  - `keys.rs` — what every key does in every mode, and how the outcome of
    the work it asks for is taken back in
  - `ui.rs` — the words of the screen, the rows of the list, which panes
    are shown and their colours (the ratatui layout itself is in `app/`)
  - `laws.rs` — properties that span several functions
- `tests/` — tests of the library on concrete values
- `app/` — the `scribe` program: argument parsing, the terminal loop,
  layout and drawing, file operations, running `asciidoctor`

## Verifying

Every function in `src/` carries a contract that Verus checks; calls into
`chrono`, `dirs`, `fuzzy-matcher` and std's `Path` sit behind small trusted
wrappers whose doc comments say what is assumed of them.
