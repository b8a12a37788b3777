# pso

The planning logic of a Playwright shard orchestrator, verified with Verus,
and the `pso` command around it.

- `src/` is the library: `cli` (run settings and their check), `env` (an
  insertion-ordered string map), `shard` (each shard's environment, Playwright
  arguments and command line), `report` (shard outcomes and the run summary),
  `text` (decimal rendering and string helpers) and `laws` (properties that
  span these functions).
- `app/main.rs` parses the command line with clap, starts the shards as child
  processes with tokio, and prints their output and the summary.
- `tests/` runs the library on concrete values.
