# shipyard

The core of a desktop tool that tracks the work in Git repositories: local
branches, checkouts and GitHub pull requests appear as work items that can be
inspected, checked out, deleted and shipped into the default branch, with
notifications when pull requests change.

- `src/` is the library, verified with Verus. It holds every decision the tool
  takes: how Git's output is read, how work items are classified and sorted,
  which deletions and checkouts are safe, how notification state evolves, and
  how settings are validated and updated. Functions that depend on Git take
  Git's answers as plain values and state in their contracts what they make of
  them; `src/*_laws.rs` and the `law_*` proof functions state properties that
  hold across calls.
- `src/external.rs` holds the few calls into `std` and `sha2` whose behaviour
  is taken on trust, each with the contract relied on.
- `app/` runs Git, the GitHub CLI and terminals, keeps settings as JSON files,
  and hands the library the values it asks for.
- `tests/` exercises the library on concrete values.
