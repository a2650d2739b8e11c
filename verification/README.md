# aureus_vrc

A verified library for the Versioned Release Convention: commit messages of
the form `TYPE: PROJECT - vX.Y.Z` (types `RELEASE`, `UPDATE`, `PATCH`), the
semantic-version bump that each type makes, and the decisions of the
`aureus-vrc` command-line tool.

Layout:

- `src/` — the library, written in Verus and proved against its contracts.
  The conversions between the message types (`From`) are stated through
  their `from_spec`; the calls into `regex` and `serde_json` stand behind
  wrappers whose contracts are trusted.
  - `text.rs` — characters, lines as `str::lines` reads them, trimming,
    searching, UTF-8 length, decimal rendering.
  - `cli.rs` — the commit types.
  - `json.rs` — JSON values as plain data, read and written with
    `serde_json`, and reading a member by key.
  - `convention/` — parsing, writing and validating messages
    (`parser.rs`), what reading back a written message gives
    (`roundtrip.rs`), type detection (`detect.rs`), versions (`version.rs`).
  - `commands/` — the decisions of the commands: the commit message, the
    amended message, the release version and changelog, the hook files and
    the rewrite of the assistant's `settings.json` (`settings.rs`).
  - `storage/` — the configuration (and reading a value by dotted key), the
    tracked repositories, statistics.
- `tests/` — tests run against the compiled library.
- `app/` — the command-line program: argument parsing, git, files, the
  SQLite history and terminal output, calling the library for every decision.
