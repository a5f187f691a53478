# cog

A cognitive model for coding agents: it scans a code base into entities
(modules, types, functions) and their relations, and records knowledge
claims (assertions) about them with their evidence and dependencies.

## Layout

- `src/` — the verified library.
  - `text`, `naming`, `order`: string, qualified-name and ordering
    primitives with their specifications.
  - `domain`: entities, assertions, evidence, grounds, relations, changelog
    entries and the report types.
  - `analysis`: languages, the syntax tree handed over by tree-sitter, the
    per-language extractors of definitions, imports and calls, and the
    assembly of a scan.
  - `command`: what each command decides from what it has read — the sync
    plan, drift and stale-entity handling, verification issues, the kind
    gate of `assert`, recovery, coverage, branch merging, experiments and
    the texts the commands print.
  - `cli`, `backup`: command-line arguments as plain values, database and
    backup paths.
- `app/` — the program around the library: argument parsing, walking the
  file system, JSON output and file operations.
- `tests/` — tests of the library on concrete values.
