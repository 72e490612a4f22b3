# Multorum

Multorum runs several workers on one repository in parallel without letting
them step on each other. A rulebook (`.multorum/rulebook.toml`) names file
sets and perspectives; each perspective has a write set and a read set. Workers
are created from perspectives into managed worktrees, grouped into bidding
groups, talk to the orchestrator through file-based mailboxes, and are merged
after the project's checks pass.

The invariant everything is built around: a file may be written by exactly one
live bidding group, or read by any number of them, but never both.

## Layout

- `src/` — the library, verified with Verus. It holds the rulebook language
  (file set expressions, their parser, validation and compilation; perspective
  safety and conflict checks; the check pipeline), the runtime model (bidding
  groups and workers, the orchestrator's decisions for create, discard, merge,
  delete and forward, the worker state machine, mailbox naming and sequencing,
  persisted records), and the MCP surfaces (tool and resource descriptors,
  argument checks, resource routing, error codes). Each public function states
  its result in its contract; `runtime::conflict` proves that creating,
  discarding, merging, deleting and forwarding workers keep live bidding
  groups conflict-free, given the boundary checks that the library makes
  before creating and forwarding.
- `app/` — the command-line program around the library: argument parsing,
  file and git I/O, TOML and JSON forms of the records, and an MCP server over
  stdio.
- `tests/` — tests of the library on concrete values.

Glob patterns whose alternations and repetitions nest more than 32 levels
deep, or whose repetition bounds have more than nine digits, are refused
with an error before `wax` sees them: beyond those limits `wax` panics
rather than returning an error.

Outside crates: `wax` decides glob matches and `chrono` reads and writes
timestamps, both called from the library behind specified wrappers; `toml`,
`serde`, `serde_json`, `clap` and `clap_complete` serve the program in `app/`.
