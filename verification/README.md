# rtk (gradle output filtering)

A library that shortens gradle output for reading: it detects the task type
from the command line, drops noise lines, removes `* Try:` blocks, collapses
and trims blank lines, and merges user- and repo-level configuration. Its
behaviour is stated as Verus contracts and proved.

Layout:

- `src/text.rs` — character-level helpers (`str::lines`, `trim`, prefixes,
  ASCII lowercase) with their specifications.
- `src/utils.rs` — removal of ANSI control sequences.
- `src/gradle/line_filter.rs` — the line-by-line filter and its laws.
- `src/gradle/global.rs` — the built-in noise patterns and the regex calls.
- `src/gradle/mod.rs` — task detection, `--console plain`, executable choice,
  routing of output; the per-task modules beside it.
- `src/config.rs` — configuration sections, defaults and repo-level merging.
- `app/` — the command-line program: file access, `toml` parsing, running gradle.
- `tests/` — tests of the library.
