# qubit-dependency-policy

A library that applies a shared third-party dependency baseline to Rust
projects, with its behaviour stated as Verus contracts and proved.

- `src/` — the verified library:
  - `config`, `baseline`, `source`: project configuration, versioned baselines
    and locating/accepting a baseline from a `file:` policy source;
  - `rules`: evaluation of a project (declared requirements, forbidden resolved
    versions, single-version rules) from what Cargo reports;
  - `report`: reports and their Markdown rendering;
  - `sync`, `manifest`: planning and applying plain-string requirement edits;
  - `keyed_map`, `text`, `versions`, `paths`, `error`, `diagnostic`: supporting
    types; `laws`: properties that span several functions.
  The calls into `semver`, `toml_edit`, `url` and `camino` sit in small trusted
  wrappers whose doc comments say what is assumed of them.
- `app/` — the `cargo dependency-policy` command: argument handling, file and
  Cargo I/O, and the serde forms of the library's types.
- `tests/` — tests of the library.
