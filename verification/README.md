# goose

Two parts of the goose agent, with their behaviour proved by Verus.

- `src/search.rs`: the file search tool. A pattern is a glob or a file path
  with an optional `#start-end` line range; globs become anchored,
  case-insensitive regexes (`src/pattern.rs`); the files to show are chosen
  step by step under a file limit, and the answer lists numbered lines.
- `src/headroom.rs`: the headroom proxy. Its settings and defaults, the
  command that runs it (falling back to `uvx` or `uv`), the decisions of
  starting it as a sidecar, and the rewriting of API URLs to go through it.
- `src/wait.rs`: the decisions of waiting for a probe process with a deadline.
- `src/text.rs`, `src/paths.rs`: decimal numbers, lines, character searches,
  and path operations.

`app/` holds what touches the outside world: reading the configuration,
walking directories and reading files, probing ports, spawning processes,
and the MCP and serde types.
