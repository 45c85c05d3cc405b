# vsa_core

The core of a Vertical Slice Architecture (VSA) manager, written in Verus:
the domain model of a VSA project (aggregates, commands, queries, events,
projections, upcasters, value objects), its configuration, the scanners that
find these components in a project tree, import parsing for Python,
TypeScript and Rust, the manifest of a project, and the validation rules
(`VSA0xx`, `VSA2xx`, ...) that check a tree against the architecture.

## Layout

- `src/` is the verified library. Verus verifies every function there
  against its contract. A project is given to it as a `tree::ProjectTree`: the list of
  its directories and files, with the text of each file, in walk order.
  Regular expressions (`regex`), the clock (`chrono`), Unicode case mapping
  and `Debug` text are reached through the few trusted wrappers in `re.rs`, `text.rs`,
  `manifest.rs`, `case.rs` and `debug_fmt.rs`, whose contracts name their
  results.
- `app/` is ordinary Rust around the library: reading a project directory
  into a `ProjectTree` (`walkdir`), loading the YAML configuration and writing
  the manifest as JSON or YAML (`serde`), and the error type with
  `thiserror`.
- `tests/` holds the tests, run against the compiled library.
