# hoshino

A project card for the terminal: what a directory is, what machine it is on, what
time it is there, how many lines it holds and how well they are covered, with or
without an image, once or live.

## Layout

- `src/` is the library, verified with Verus.
  - `model.rs` is the snapshot that everything is collected into.
  - `collect/` makes facts out of what was read: git, lines of code, languages,
    toolchains, coverage reports, the system and the time. What has to be read in
    between is asked for by small state machines.
  - `render/` makes rows, escape sequences and images out of a snapshot.
  - `program.rs` decides what a run shows and what a failure means; `cli.rs`,
    `config.rs` and `limits.rs` say what it may be asked for.
  - `binary64.rs` has the few operations on 64-bit floating point numbers that the
    card needs, over their bits.
  - `render/laws.rs`, `render/card_laws.rs` and `render/card_widths.rs` state what
    holds of every card; `render/measures.rs` finds out by measuring which cards keep
    to their width.
- `app/` is the program round the library: arguments, files, git, processes, the
  clock and the terminal.
- `tests/` runs the library with the crates that it calls.

## What is believed without proof

Calls into `image`, `ratatui`, `ratatui-image`, `quick-xml` and `serde_json` stand
behind functions whose contracts are not proved. Each names the function it calls and
what is claimed of it. They are in `render/cells.rs`, `render/raster.rs`,
`render/one_shot.rs` and `collect/documents.rs`.
