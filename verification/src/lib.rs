//! A Raft-replicated key/value node: the replicated log, the node's
//! persistent and volatile state, the election and replication rules,
//! membership changes, the key/value state machine and the small pieces of
//! text handling the node needs, each with a contract proved by Verus.

pub mod calculator;
pub mod clock;
pub mod config;
pub mod driver;
pub mod election;
pub mod kv;
pub mod log;
pub mod membership;
pub mod messages;
pub mod metrics;
pub mod pending;
pub mod replication;
pub mod service;
pub mod state;
pub mod storage;
pub mod text;
pub mod timer;
