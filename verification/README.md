# bastion_infrastructure

The infrastructure of a sandbox gateway: the providers that run sandboxes (Docker, Podman,
Firecracker, gVisor, the host, memory), the warm pool, persistence, metrics, the catalogs of
assertions, advice and doctor checks, and the enrichment of command output.

- `src/` is the library. Every public function carries a contract, and Verus proves it. What a
  provider or a store decides is written as a function from plain values to plain values:
  rows in and entities out, or a state and an event in and the next step out.
- `app/` performs the steps: files, databases, processes, container daemons, sockets and
  clocks.
- `tests/` runs the library on concrete values.

The calls into other crates that the library makes are gathered in `src/interop.rs` (regular
expressions, JSON, points in time, identifiers, archives), `src/table.rs` (the concurrent map
behind the state machine) and, for the standard library, in `src/text.rs` and
`src/enrichment/fs.rs`. Each has a contract that states what is taken on trust.

Laws that relate several functions are the public proof functions whose names begin with
`law_`.
