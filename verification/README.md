# raft_kv

A key/value node replicated with Raft, with pre-vote, leader leases, log
compaction and single-node membership changes. The decisions a node makes
are written in Verus and proved against their contracts; the program around
them (command line, disk, network, metrics endpoint, async runtime) is
ordinary Rust.

## Layout

- `src/` — the verified library
  - `log.rs` — the replicated log, addressed by logical index past a snapshot
  - `state.rs` — roles, saved and volatile state, leader state and lease
  - `election.rs` — pre-vote and vote handling, vote counting, candidacies
  - `replication.rs` — heartbeats, follower append, commit advance, applying
    committed commands, compaction
  - `membership.rs` — adding and removing nodes
  - `kv.rs`, `service.rs` — the key/value state machine and client service
  - `pending.rs` — writes waiting for their entry to commit
  - `storage.rs` — what is saved and where
  - `timer.rs`, `clock.rs` — election and heartbeat timers
  - `config.rs`, `text.rs` — configuration and decimal text
  - `metrics.rs`, `driver.rs`, `calculator.rs` — monitoring, the main loop's
    tick, the calculator service
- `tests/` — tests run against the compiled library
- `app/` — the node binary: async runtime, locks, disk I/O, JSON encoding,
  the metrics HTTP endpoint
