//! What the client-facing key/value service decides: reads answered from the
//! store, writes turned into log entries by the leader, and the answers.

use crate::kv::KVStore;
use crate::log::{EntryView, LogEntry, LogStore, LogView};
use crate::messages::{DeleteResponse, GetResponse, PutResponse};
use crate::state::{NodeRole, RaftState};
use vstd::prelude::*;

verus! {

/// Answers a read from the local store.
pub fn get_response(store: &KVStore, key: &str) -> (r: GetResponse)
    ensures
        r.found == store@.contains_key(key@),
        r.found ==> r.value@ == store@[key@],
        !r.found ==> r.value@ == Seq::<u8>::empty(),
        r.error@ == Seq::<char>::empty(),
        r.leader_hint == 0,
{
    match store.get(key) {
        Some(value) => GetResponse { found: true, value, error: String::new(), leader_hint: 0 },
        None => GetResponse { found: false, value: Vec::new(), error: String::new(), leader_hint: 0 },
    }
}

/// What became of a write handed to this node.
#[derive(Clone, Copy, Debug, PartialEq, Eq, Structural)]
pub enum Proposal {
    /// This node does not lead; `leader_hint` names the leader it knows of
    /// (0: none).
    NotLeader { leader_hint: u32 },
    /// The command was appended to the leader's log at `index`.
    Appended { index: u64 },
}

/// A leader appends an encoded client command to its log in its current
/// term, right after its last entry; any other node turns the write away.
/// The log must be saved afterwards.
pub fn propose(state: &RaftState, log: &mut LogStore, command: Vec<u8>) -> (r: Proposal)
    requires
        old(log)@.last_index_u64() < u64::MAX,
    ensures
        state.role != NodeRole::Leader ==> r == (Proposal::NotLeader {
            leader_hint: match state.leader_id {
                Some(id) => id,
                None => 0,
            },
        }) && final(log)@ == old(log)@,
        state.role == NodeRole::Leader ==> {
            &&& r == (Proposal::Appended { index: (old(log)@.last_index_u64() + 1) as u64 })
            &&& final(log)@ == (LogView {
                entries: old(log)@.entries.push(
                    EntryView {
                        term: state.persistent.current_term,
                        index: (old(log)@.last_index_u64() + 1) as u64,
                        command: command@,
                    },
                ),
                ..old(log)@
            })
        },
{
    if state.role != NodeRole::Leader {
        let leader_hint = match state.leader_id {
            Some(id) => id,
            None => 0,
        };
        return Proposal::NotLeader { leader_hint };
    }
    let term = state.persistent.current_term;
    let index = log.last_index() + 1;
    let entry = LogEntry::new(term, index, command);
    log.append_one(entry);
    Proposal::Appended { index }
}

/// How a write through the log ended for the client.
#[derive(Clone, Copy, Debug, PartialEq, Eq, Structural)]
pub enum WriteOutcome {
    /// Turned away: another node leads.
    NotLeader { leader_hint: u32 },
    /// The entry was committed.
    Committed,
    /// The entry was not committed in time.
    TimedOut,
}

/// The text a write outcome is reported with.
pub open spec fn outcome_error(o: WriteOutcome) -> Seq<char> {
    match o {
        WriteOutcome::NotLeader { .. } => "not leader"@,
        WriteOutcome::Committed => Seq::empty(),
        WriteOutcome::TimedOut => "timeout waiting for commit"@,
    }
}

/// The leader hint a write outcome is reported with.
pub open spec fn outcome_hint(o: WriteOutcome) -> u32 {
    match o {
        WriteOutcome::NotLeader { leader_hint } => leader_hint,
        _ => 0,
    }
}

fn outcome_parts(outcome: WriteOutcome) -> (r: (bool, String, u32))
    ensures
        r.0 == (outcome == WriteOutcome::Committed),
        r.1@ == outcome_error(outcome),
        r.2 == outcome_hint(outcome),
{
    match outcome {
        WriteOutcome::NotLeader { leader_hint } => (false, String::from_str("not leader"), leader_hint),
        WriteOutcome::Committed => (true, String::new(), 0),
        WriteOutcome::TimedOut => (false, String::from_str("timeout waiting for commit"), 0),
    }
}

/// The answer to a put that went through the log.
pub fn put_response(outcome: WriteOutcome) -> (r: PutResponse)
    ensures
        r.success == (outcome == WriteOutcome::Committed),
        r.error@ == outcome_error(outcome),
        r.leader_hint == outcome_hint(outcome),
{
    let (success, error, leader_hint) = outcome_parts(outcome);
    PutResponse { success, error, leader_hint }
}

/// The answer to a delete that went through the log.
pub fn delete_response(outcome: WriteOutcome) -> (r: DeleteResponse)
    ensures
        r.success == (outcome == WriteOutcome::Committed),
        r.error@ == outcome_error(outcome),
        r.leader_hint == outcome_hint(outcome),
{
    let (success, error, leader_hint) = outcome_parts(outcome);
    DeleteResponse { success, error, leader_hint }
}

/// A put on a node that runs without replication: stored at once.
pub fn put_locally(store: &mut KVStore, key: String, value: Vec<u8>) -> (r: PutResponse)
    ensures
        final(store)@ == old(store)@.insert(key@, value@),
        r.success,
        r.error@ == Seq::<char>::empty(),
        r.leader_hint == 0,
{
    store.put(key, value);
    PutResponse { success: true, error: String::new(), leader_hint: 0 }
}

/// A delete on a node that runs without replication: done at once; it
/// succeeds when the key was there.
pub fn delete_locally(store: &mut KVStore, key: &str) -> (r: DeleteResponse)
    ensures
        final(store)@ == old(store)@.remove(key@),
        r.success == old(store)@.contains_key(key@),
        r.error@ == Seq::<char>::empty(),
        r.leader_hint == 0,
{
    let deleted = store.delete(key);
    DeleteResponse { success: deleted, error: String::new(), leader_hint: 0 }
}

} // verus!
