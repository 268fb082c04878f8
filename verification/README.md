# cmux_herdr

A bridge that mirrors Herdr provider sessions (workspaces, tabs and panes)
into cmux host windows, with the decisions it takes proved by Verus.

- `src/` is the verified library: the published API policy and CLI argument
  building, the provider call failure policy, layout parsing and the pane
  tree, session and window reconcile, impose planning, the attach / detach /
  restore lifecycle and the live host, writer handoff, the status pill,
  sidebar and sync decisions, the doctor's install report, and the pure
  parts of the socket protocol. Each public function states its result in
  its `ensures`; cross-function laws are public proof functions named
  `law_*`.
- Calls into outside crates (JSON parsing, SHA-256) and into std functions
  without a vstd specification stand behind small trusted wrappers whose
  contracts are stated over named results.
- `app/` is the command-line program around the library: argument parsing,
  files, sockets, processes and the clock. It hands the library plain values
  and prints what comes back.
- `tests/` runs the library on concrete inputs.
