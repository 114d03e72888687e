# graphnet-core

Single-node, in-memory core of GraphNet, verified with Verus.

Entities are inserted with an initial payload and then change only through
atomic mutations. A mutation names the versions it read and, for each entity it
writes, the version it expects and the complete next payload. It is validated
entirely before anything changes (optimistic concurrency); when it passes, every
written entity gains one new immutable version and a commit records the
transitions.

Layout:

- `src/id.rs`: entity, mutation and node identifiers (random version 4 UUIDs).
- `src/state.rs`: versions, payload values, state references and state nodes.
- `src/entity.rs`, `src/mutation.rs`, `src/commit.rs`, `src/error.rs`: the records
  that go in and out of the engine.
- `src/graph.rs`: the engine, its abstract state (`GraphView`), the invariant and
  the exact outcome of validation and of each operation.
- `src/laws.rs`: properties that span operations (history only grows, reads see
  the last write, stale and disjoint mutations).
- `src/account.rs`: account payloads holding one integer balance.
- `app/main.rs`: a command-line demonstration of an atomic transfer.
