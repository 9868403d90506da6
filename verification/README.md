# hq

A mission orchestrator for AI coding agents: a human frames a mission in
lots, agents work on it in isolated slots behind a firewall, and `hq`
decides, from what the runs leave behind, whether a lot is done, whether the
gates hold, and when the human has to step in.

## Layout

- `src/` — the library, verified with Verus. Every decision lives here: the
  mission flow and its bounds, the gates and their verdicts, the perimeter,
  the Compose profile, the harness's command line and log, the rules on
  secrets, slots, accounts and pushes, and the texts `hq` writes.
  Whatever needs the disk, a process or the network is handed in as a plain
  value, and what must be done is handed back as one.
- `app/` — a command-line program around part of it: `init`, `slot add`,
  `list` and `rm`, `mission new`, `list`, `status`, `start` and `stop`, and
  `check` (without the container probes). It reads and writes files, runs
  git and the container engine, asks the forge, and decodes YAML and JSON;
  the library decides each step. Verification is decided step by step by
  the library (`verify::verify_step`: what each stage asks for, and what
  follows what the gates or a run came to), but this program does not run
  its loop yet: playing the eight gates and launching the later roles'
  runs are not wired here. Rebuilding images and pushing are likewise
  decided by the library and not wired.
- `tests/` — tests of the library on concrete values.

The outside crates the library calls go through a few trusted wrappers,
each with the contract its documentation gives (`globset` for path
patterns; `str::to_lowercase`, `Path` queries and `{:?}` formatting from
std).
