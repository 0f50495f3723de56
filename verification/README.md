# envy

A toolkit for environment variables: typed variables, changes to an
environment taken as values ("diffs"), and containers those changes apply to.
The library under `src/` is verified with Verus.

- `src/parse.rs` — `EnvironmentParse`: how a typed value is written to and read
  from its raw form; every type that parses from text parses from bytes.
- `src/diff.rs` — `Entry`, the `Diff` trait and its implementations (typed
  variables, `Unset`, `Option`, `KEY=VALUE` strings, tuples), and the model of
  an environment as a map from keys to a value or "unset".
- `src/container.rs` — `EnvBuf` (a buffer of variables), `EnvBufDiff`, and
  `OsEnv` (a view of the process environment that keeps its own changes). The
  process environment's values are passed in: a view reads its own change where
  it has one (nothing where it unset the key) and the process environment's
  otherwise, and `dump` gives the
  process environment with the view's changes over it.
- `src/lib.rs` — `EnvVariable`, `Error`, and the typed `Get` / `Modify` traits.
- `src/laws.rs` — properties that relate several operations.
- `app/lib.rs` — the parts that touch the process: reading and writing the
  system environment, applying diffs to a `Command`, displayable errors, and the
  `define_env!` macro.

Raw values are bytes (`Vec<u8>`), the Unix form of an `OsString`.
