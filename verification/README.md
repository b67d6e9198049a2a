# trammel

Config-driven architectural conformance for Rust workspaces: each source
file is classified into a named layer per `trammel.toml`, and a fixed set of
rule kinds runs over it (forbidden imports, inline paths, constructors,
macros and methods; required struct attributes; N+1 detection; filesystem
layout assertions; content scans).

## Layout

- `src/` — the rule engine, verified with Verus:
  - `glob` — import-path / identifier glob matching (proved against a
    recursive wildcard semantics) and filesystem globs through `globset`;
  - `config` — the configuration model and its validation;
  - `layers` — first-match layer classification and exempt files;
  - `syntax` — the model of a parsed source file that the rules read;
  - `visitor` and `rules` — the per-file walk and every rule kind, each
    specified by a spec function over the syntax model;
  - `pipeline` — the whole run over collected inputs, and exit codes;
  - `violations` and `report` — the grouped report, rule listings and
    `inspect` output.
- `app/` — the command line: argument parsing, reading `trammel.toml`
  (serde + `toml`), walking the project (`walkdir`), parsing sources with
  `syn` into the syntax model, and printing.
- `tests/` — unit tests, end-to-end rule tests over inline sources, and
  pipeline tests over in-memory project trees.

## Trusted boundary

The only unproved code in `src/` is a handful of `external_body` wrappers:
building and matching `globset` globs and glob sets (whose results are
named, not restated), and collecting characters into a `String`.
