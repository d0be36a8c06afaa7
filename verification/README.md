# ttrpgtui

A keyboard-driven terminal tracker for tabletop RPG encounters: creatures in
initiative order, health and initiative changes, renames and new creatures,
all undoable, with sessions and encounters saved as RON files.

The tracker's logic is a library verified with Verus; the terminal program
around it is ordinary Rust.

## Layout

- `src/` — the verified library.
  - `models/creature.rs` — creatures and the collection that keeps them in
    display order (initiative first, blanks last, then name, then id).
  - `models/edit.rs`, `models/edit_laws.rs` — undoable edits, and the proofs
    that reverting an edit gives back the creatures it changed and that
    applying it again gives the same result.
  - `models/history.rs` — the undo history, kept by `undo::Record`.
  - `models/input.rs` — the popups, number parsing, letter suffixes.
  - `components/encounter.rs` — the encounter state machine: navigation,
    selection, popups, submissions, undo and redo, key handling.
  - `components/encounter_laws.rs` — what holds across those operations.
  - `components/session_picker.rs` — the start-up picker; it asks the caller
    for the file work it needs and takes the results back.
  - `components/vim_textarea.rs` — a Vim-like modal text area.
  - `storage.rs` — saved data, folder and file naming, listing order.
  - `dnd_beyond.rs` — D&D Beyond characters as creatures.
  - `creature.rs`, `app_state.rs` — the first creature list and table state.
- `app/` — the terminal program: command line, drawing, key events, files,
  HTTP.
- `tests/` — tests of the library.
