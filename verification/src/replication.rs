//! Log replication: a follower taking in a leader's entries, a leader
//! building heartbeats and reading the answers, advancing the commit index,
//! handing committed commands to the state machine, and compacting the log.

use crate::log::{entry_views, EntryView, LogEntry, LogStore, LogView};
use crate::messages::{AppendEntriesRequest, AppendEntriesResponse};
use crate::state::{majority_of, NodeRole, PersistentState, RaftState};
use vstd::prelude::*;

verus! {

/// Whether an entry with `index` is already inside a snapshot that ends at
/// `snapshot_last_index` (0: no snapshot).
pub open spec fn covered_by_snapshot(index: u64, snapshot_last_index: u64) -> bool {
    snapshot_last_index > 0 && index <= snapshot_last_index
}

/// The entries of `entries` that a snapshot ending at `snapshot_last_index`
/// does not already cover, in their order.
pub open spec fn past_snapshot(entries: Seq<EntryView>, snapshot_last_index: u64) -> Seq<EntryView> {
    entries.filter(|e: EntryView| !covered_by_snapshot(e.index, snapshot_last_index))
}

/// The log after a follower takes in `entries` from a leader: entries its
/// snapshot already covers are skipped; anything from the first remaining
/// entry's index on is replaced by the remaining entries.
pub open spec fn accept_entries(log: LogView, entries: Seq<EntryView>) -> LogView {
    let fresh = past_snapshot(entries, log.snapshot_last_index);
    if fresh.len() == 0 {
        log
    } else {
        let kept = log.truncated(fresh[0].index as int);
        LogView { entries: kept.entries + fresh, ..kept }
    }
}

/// Copies of the entries that a snapshot ending at `snapshot_last_index`
/// does not already cover.
fn entries_past_snapshot(entries: &Vec<LogEntry>, snapshot_last_index: u64) -> (r: Vec<LogEntry>)
    ensures
        entry_views(r@) == past_snapshot(entry_views(entries@), snapshot_last_index),
{
    let ghost all = entry_views(entries@);
    let mut out: Vec<LogEntry> = Vec::new();
    let mut i: usize = 0;
    proof {
        reveal(Seq::filter);
        assert(all.subrange(0, 0) =~= Seq::<EntryView>::empty());
        assert(entry_views(out@) =~= past_snapshot(all.subrange(0, 0), snapshot_last_index));
    }
    while i < entries.len()
        invariant
            i <= entries.len(),
            all == entry_views(entries@),
            entry_views(out@) == past_snapshot(all.subrange(0, i as int), snapshot_last_index),
        decreases entries.len() - i,
    {
        let ghost before = out@;
        let ghost upto = all.subrange(0, i as int + 1);
        proof {
            reveal(Seq::filter);
            assert(upto.drop_last() =~= all.subrange(0, i as int));
            assert(upto.last() == entries@[i as int]@);
        }
        if !(snapshot_last_index > 0 && entries[i].index <= snapshot_last_index) {
            let e = entries[i].clone();
            out.push(e);
            assert(entry_views(out@) =~= entry_views(before).push(entries@[i as int]@));
        }
        i = i + 1;
    }
    proof {
        assert(all.subrange(0, entries.len() as int) =~= all);
    }
    out
}

/// The saved state of a follower that accepts a leader of `term`.
pub open spec fn follower_persistent(p: PersistentState, term: u64) -> PersistentState {
    if term > p.current_term {
        PersistentState { current_term: term, voted_for: None }
    } else {
        p
    }
}

/// The role of a node after it accepted a leader of `term`: a newer term or
/// a candidacy in the same term end in following; otherwise the role stays.
pub open spec fn follower_role(p: PersistentState, role: NodeRole, term: u64) -> NodeRole {
    if term > p.current_term || role == NodeRole::Candidate {
        NodeRole::Follower
    } else {
        role
    }
}

/// A follower's commit index after a successful heartbeat: the leader's,
/// bounded by the follower's last entry `match_index`; a leader commit of 0
/// leaves it as it was.
pub open spec fn follower_commit_index(commit_index: u64, leader_commit: u64, match_index: u64) -> u64 {
    if leader_commit > 0 {
        if leader_commit <= match_index { leader_commit } else { match_index }
    } else {
        commit_index
    }
}

/// After a successful heartbeat that carries a commit index, the follower
/// never commits past its own last entry nor past the leader's commit
/// index, and commits up to one of the two.
pub proof fn lemma_follower_commit_bounded(commit_index: u64, leader_commit: u64, match_index: u64)
    requires
        leader_commit > 0,
    ensures
        follower_commit_index(commit_index, leader_commit, match_index) <= match_index,
        follower_commit_index(commit_index, leader_commit, match_index) <= leader_commit,
        follower_commit_index(commit_index, leader_commit, match_index) == leader_commit
            || follower_commit_index(commit_index, leader_commit, match_index) == match_index,
{
}

/// Handles a leader's heartbeat on this node. An older term is refused and
/// changes nothing. Otherwise the node follows the sender; when its log
/// agrees about the entry before the new ones it takes them in, sets its
/// commit index to the leader's (bounded by its own last entry) and answers
/// with success; the log and term must then be saved before answering.
pub fn handle_append_entries(state: &mut RaftState, log: &mut LogStore, request: AppendEntriesRequest) -> (r: AppendEntriesResponse)
    ensures
        request.term < old(state).persistent.current_term ==> {
            &&& r == (AppendEntriesResponse { term: old(state).persistent.current_term, success: false, match_index: 0 })
            &&& *final(state) == *old(state)
            &&& final(log)@ == old(log)@
        },
        request.term >= old(state).persistent.current_term ==> {
            &&& final(state).persistent == follower_persistent(old(state).persistent, request.term)
            &&& final(state).role == follower_role(old(state).persistent, old(state).role, request.term)
            &&& final(state).leader_id == Some(request.leader_id)
            &&& r.term == request.term
            &&& r.success == old(log)@.matches(request.prev_log_index, request.prev_log_term)
            &&& !r.success ==> {
                &&& final(log)@ == old(log)@
                &&& r.match_index == old(log)@.last_index_u64()
                &&& final(state).volatile == old(state).volatile
            }
            &&& r.success ==> {
                &&& final(log)@ == accept_entries(old(log)@, entry_views(request.entries@))
                &&& r.match_index == final(log)@.last_index_u64()
                &&& final(state).volatile.last_applied == old(state).volatile.last_applied
                &&& final(state).volatile.commit_index == follower_commit_index(
                    old(state).volatile.commit_index,
                    request.leader_commit,
                    r.match_index,
                )
            }
        },
        final(state).node_id == old(state).node_id,
        final(state).leader_state == old(state).leader_state,
        final(state).peers == old(state).peers,
{
    let current_term = state.persistent.current_term;
    if request.term < current_term {
        return AppendEntriesResponse { term: current_term, success: false, match_index: 0 };
    }
    if request.term > current_term {
        state.become_follower(request.term, Some(request.leader_id));
    } else if state.role == NodeRole::Candidate {
        state.become_follower(request.term, Some(request.leader_id));
    }
    state.leader_id = Some(request.leader_id);

    if !log.match_entry(request.prev_log_index, request.prev_log_term) {
        return AppendEntriesResponse { term: request.term, success: false, match_index: log.last_index() };
    }

    let term = request.term;
    let leader_commit = request.leader_commit;
    let entries = request.entries;
    let ghost added = entry_views(entries@);
    let fresh = entries_past_snapshot(&entries, log.snapshot_last_index);
    if fresh.len() > 0 {
        let first_index = fresh[0].index;
        log.truncate(first_index);
        log.append(fresh);
    }
    assert(log@ == accept_entries(old(log)@, added));

    let match_index = log.last_index();
    if leader_commit > 0 {
        state.volatile.commit_index = if leader_commit <= match_index { leader_commit } else { match_index };
    }
    AppendEntriesResponse { term, success: true, match_index }
}

/// Of entries carrying consecutive indices from `first`, those a snapshot
/// ending at `snapshot_last_index` does not cover are the ones from
/// position `covered_count` on.
proof fn lemma_consecutive_past_snapshot(entries: Seq<EntryView>, first: int, snapshot_last_index: u64)
    requires
        first >= 1,
        forall|k: int| 0 <= k < entries.len() ==> #[trigger] entries[k].index == first + k,
    ensures
        past_snapshot(entries, snapshot_last_index) == entries.subrange(
            covered_count(entries.len() as int, first, snapshot_last_index),
            entries.len() as int,
        ),
    decreases entries.len(),
{
    reveal(Seq::filter);
    let n = entries.len() as int;
    if n == 0 {
        assert(entries.subrange(0, 0) =~= entries);
    } else {
        let rest = entries.drop_last();
        assert forall|k: int| 0 <= k < rest.len() implies #[trigger] rest[k].index == first + k by {
            assert(rest[k] == entries[k]);
        }
        lemma_consecutive_past_snapshot(rest, first, snapshot_last_index);
        assert(entries.last().index == first + n - 1);
        let c = covered_count(n, first, snapshot_last_index);
        let c1 = covered_count(n - 1, first, snapshot_last_index);
        if covered_by_snapshot(entries.last().index, snapshot_last_index) {
            assert(c == n && c1 == n - 1);
            assert(rest.subrange(c1, n - 1) =~= entries.subrange(c, n));
        } else {
            assert(c == c1);
            assert(rest.subrange(c1, n - 1).push(entries.last()) =~= entries.subrange(c, n));
        }
    }
}

/// How many of `n` entries with consecutive indices from `first` a snapshot
/// ending at `snapshot_last_index` covers.
pub open spec fn covered_count(n: int, first: int, snapshot_last_index: u64) -> int {
    if snapshot_last_index == 0 || snapshot_last_index < first {
        0
    } else if snapshot_last_index - first + 1 >= n {
        n
    } else {
        snapshot_last_index - first + 1
    }
}

/// Log matching on a follower: when the log agrees about the entry before the
/// new ones and the new entries carry consecutive indices from there, each
/// new entry that the snapshot does not cover ends up at its own index, the
/// entries before them are kept, and the log ends with the last new entry
/// unless the snapshot already covers it.
pub proof fn lemma_accepted_entries_land_at_their_indices(log: LogView, prev_index: u64, prev_term: u64, entries: Seq<EntryView>)
    requires
        log.matches(prev_index, prev_term),
        forall|k: int| 0 <= k < entries.len() ==> #[trigger] entries[k].index == prev_index + 1 + k,
    ensures
        entries.len() > 0 && prev_index + entries.len() > log.snapshot_last_index ==> accept_entries(
            log,
            entries,
        ).last_index() == prev_index + entries.len(),
        prev_index + entries.len() <= log.snapshot_last_index ==> accept_entries(log, entries) == log,
        forall|k: int| 0 <= k < entries.len() && !covered_by_snapshot(entries[k].index, log.snapshot_last_index) ==> {
            &&& accept_entries(log, entries).holds(#[trigger] entries[k].index as int)
            &&& accept_entries(log, entries).entry_at(entries[k].index as int) == entries[k]
        },
        forall|i: int| log.snapshot_last_index < i <= prev_index ==> {
            &&& #[trigger] accept_entries(log, entries).holds(i)
            &&& accept_entries(log, entries).entry_at(i) == log.entry_at(i)
        },
{
    let snap = log.snapshot_last_index;
    let n = entries.len() as int;
    let first = prev_index + 1;
    lemma_consecutive_past_snapshot(entries, first, snap);
    let d = covered_count(n, first, snap);
    let fresh = past_snapshot(entries, snap);
    let after = accept_entries(log, entries);
    if prev_index < snap {
        assert(prev_index == 0);
    }
    if d < n {
        let start = if prev_index >= snap { prev_index as int } else { snap as int };
        assert(fresh[0] == entries[d]);
        assert(fresh[0].index == start + 1);
        let keep = start - snap;
        assert(log.kept_below(start + 1) == keep);
        assert(after.entries.len() == keep + n - d);
        assert(start - prev_index == d);
        assert(after.last_index() == prev_index + n);
        assert forall|k: int| 0 <= k < n && !covered_by_snapshot(entries[k].index, snap) implies {
            &&& after.holds(#[trigger] entries[k].index as int)
            &&& after.entry_at(entries[k].index as int) == entries[k]
        } by {
            assert(k >= d);
            assert(entries[k].index - snap - 1 == keep + (k - d));
            assert(after.entries[keep + (k - d)] == fresh[k - d]);
        }
    } else {
        assert(n == 0 || prev_index + n <= snap);
        assert(fresh.len() == 0);
        assert forall|k: int| 0 <= k < n implies covered_by_snapshot(#[trigger] entries[k].index, snap) by {}
    }
}

/// The index just before `next_index`, 0 at the start of the log.
pub open spec fn prev_index_for(next_index: u64) -> u64 {
    if next_index > 1 { (next_index - 1) as u64 } else { 0 }
}

/// Whether `req` is the heartbeat a leader in `state` with log `log` sends
/// to the node whose next index is `next_index`: the entries from there on,
/// and the index and term of the entry before them.
pub open spec fn is_heartbeat_for(state: &RaftState, log: LogView, next_index: u64, req: &AppendEntriesRequest) -> bool {
    let prev = prev_index_for(next_index);
    &&& req.term == state.persistent.current_term
    &&& req.leader_id == state.node_id
    &&& req.prev_log_index == prev
    &&& req.prev_log_term == (if prev > 0 { log.term_or_zero(prev as int) } else { 0 })
    &&& entry_views(req.entries@) == log.suffix_from(next_index as int)
    &&& req.leader_commit == state.volatile.commit_index
}

/// The heartbeat for a follower whose next index is `next_index`.
pub fn heartbeat_for(state: &RaftState, log: &LogStore, next_index: u64) -> (r: AppendEntriesRequest)
    ensures
        is_heartbeat_for(state, log@, next_index, &r),
{
    let entries = log.entries_from(next_index);
    let prev_log_index = if next_index > 1 { next_index - 1 } else { 0 };
    let prev_log_term = if prev_log_index > 0 { log.term_or_zero(prev_log_index) } else { 0 };
    AppendEntriesRequest {
        term: state.persistent.current_term,
        leader_id: state.node_id,
        prev_log_index,
        prev_log_term,
        entries,
        leader_commit: state.volatile.commit_index,
    }
}

/// The heartbeats a leader sends, one per peer in the order of `peers`;
/// none when the node does not lead.
pub fn heartbeats(state: &RaftState, log: &LogStore) -> (r: Option<Vec<AppendEntriesRequest>>)
    requires
        state.role == NodeRole::Leader && state.leader_state is Some ==> state.leader_state->0.next_index.len()
            > state.peers.len(),
    ensures
        r is Some <==> (state.role == NodeRole::Leader && state.leader_state is Some),
        r is Some ==> {
            &&& r->0.len() == state.peers.len()
            &&& forall|i: int| 0 <= i < state.peers.len() ==> is_heartbeat_for(
                state,
                log@,
                state.leader_state->0.next_index@[i + 1],
                &#[trigger] r->0@[i],
            )
        },
{
    if state.role != NodeRole::Leader {
        return None;
    }
    let ls = match &state.leader_state {
        Some(ls) => ls,
        None => return None,
    };
    let n = state.peers.len();
    let mut out: Vec<AppendEntriesRequest> = Vec::new();
    let mut i: usize = 0;
    while i < n
        invariant
            i <= n,
            n == state.peers.len(),
            ls.next_index.len() > n,
            state.leader_state == Some(*ls),
            out.len() == i,
            forall|k: int| 0 <= k < i ==> is_heartbeat_for(state, log@, ls.next_index@[k + 1], &#[trigger] out@[k]),
        decreases n - i,
    {
        let req = heartbeat_for(state, log, ls.next_index[i + 1]);
        out.push(req);
        i = i + 1;
    }
    Some(out)
}

/// What a leader concluded from one heartbeat answer.
#[derive(Clone, Copy, Debug, PartialEq, Eq, Structural)]
pub enum ReplyOutcome {
    /// The follower answered with a newer term; this node now follows.
    SteppedDown,
    /// The follower took the entries in.
    Replicated,
    /// The follower's log did not match; the next attempt starts one earlier.
    Retry,
    /// The node no longer tracks its followers.
    Ignored,
}

/// Takes in a follower's answer to a heartbeat. `slot` is the follower's
/// slot in the leader's vectors, `acks` the successful answers of this
/// heartbeat round so far (the leader's own included) and `majority` the
/// number that renews the lease.
pub fn on_append_reply(state: &mut RaftState, slot: usize, reply: &AppendEntriesResponse, acks: &mut usize, majority: usize) -> (r: ReplyOutcome)
    requires
        reply.term <= old(state).persistent.current_term && old(state).leader_state is Some ==> {
            &&& slot < old(state).leader_state->0.next_index.len()
            &&& slot < old(state).leader_state->0.match_index.len()
            &&& reply.success ==> reply.match_index < u64::MAX && *old(acks) < usize::MAX
        },
    ensures
        old(state).wf() ==> final(state).wf(),
        final(state).node_id == old(state).node_id,
        final(state).peers == old(state).peers,
        final(state).volatile == old(state).volatile,
        reply.term > old(state).persistent.current_term ==> {
            &&& r == ReplyOutcome::SteppedDown
            &&& final(state).persistent == (PersistentState { current_term: reply.term, voted_for: None })
            &&& final(state).role == NodeRole::Follower
            &&& final(state).leader_id is None
            &&& final(state).leader_state == old(state).leader_state
            &&& *final(acks) == *old(acks)
        },
        reply.term <= old(state).persistent.current_term ==> {
            &&& final(state).persistent == old(state).persistent
            &&& final(state).role == old(state).role
            &&& final(state).leader_id == old(state).leader_id
            &&& (final(state).leader_state is Some <==> old(state).leader_state is Some)
            &&& old(state).leader_state is None ==> r == ReplyOutcome::Ignored && *final(acks) == *old(acks)
            &&& old(state).leader_state is Some ==> {
                let before = old(state).leader_state->0;
                let after = final(state).leader_state->0;
                if reply.success {
                    &&& r == ReplyOutcome::Replicated
                    &&& after.match_index@ == before.match_index@.update(slot as int, reply.match_index)
                    &&& after.next_index@ == before.next_index@.update(slot as int, (reply.match_index + 1) as u64)
                    &&& *final(acks) == *old(acks) + 1
                    &&& *final(acks) >= majority ==> {
                        &&& after.lease.duration_ms() == before.lease.duration_ms()
                        &&& after.lease.was_renewed()
                        &&& after.lease.renewal_count() == before.lease.renewal_count() + 1
                    }
                    &&& *final(acks) < majority ==> after.lease == before.lease
                } else {
                    &&& r == ReplyOutcome::Retry
                    &&& after.match_index@ == before.match_index@
                    &&& after.next_index@ == before.next_index@.update(
                        slot as int,
                        if before.next_index@[slot as int] > 1 { (before.next_index@[slot as int] - 1) as u64 } else { before.next_index@[slot as int] },
                    )
                    &&& *final(acks) == *old(acks)
                    &&& after.lease == before.lease
                }
            }
        },
{
    if reply.term > state.persistent.current_term {
        state.become_follower(reply.term, None);
        return ReplyOutcome::SteppedDown;
    }
    match &mut state.leader_state {
        Some(ls) => {
            if reply.success {
                ls.match_index.set(slot, reply.match_index);
                ls.next_index.set(slot, reply.match_index + 1);
                *acks = *acks + 1;
                if *acks >= majority {
                    ls.lease.renew();
                }
                ReplyOutcome::Replicated
            } else {
                let next = ls.next_index[slot];
                if next > 1 {
                    ls.next_index.set(slot, next - 1);
                }
                ReplyOutcome::Retry
            }
        },
        None => ReplyOutcome::Ignored,
    }
}


/// How many values of `s` are at least `n`.
pub open spec fn count_at_least(s: Seq<u64>, n: u64) -> nat
    decreases s.len(),
{
    if s.len() == 0 {
        0
    } else {
        count_at_least(s.drop_last(), n) + (if s.last() >= n { 1nat } else { 0nat })
    }
}

/// Nodes known to hold the entry at `n`: the leader itself and every one of
/// the `peer_count` followers (slots 1 to `peer_count`) whose match index
/// reaches `n`.
pub open spec fn replicated_on(match_index: Seq<u64>, peer_count: int, n: u64) -> int {
    1 + count_at_least(match_index.subrange(1, peer_count + 1), n) as int
}

/// Whether a leader of `term` may commit index `n`: the entry there was
/// written in its own term (0 standing for an entry that is not held) and a
/// majority of the cluster holds it.
pub open spec fn can_commit(log: LogView, term: u64, match_index: Seq<u64>, peer_count: int, n: u64) -> bool {
    &&& log.term_or_zero(n as int) == term
    &&& replicated_on(match_index, peer_count, n) >= majority_of(peer_count + 1)
}

/// Counts the followers whose match index reaches `n`, plus the leader.
fn replication_count(match_index: &Vec<u64>, peer_count: usize, n: u64) -> (r: usize)
    requires
        match_index.len() > peer_count,
    ensures
        r == replicated_on(match_index@, peer_count as int, n),
{
    let mut count: usize = 1;
    let mut i: usize = 0;
    while i < peer_count
        invariant
            i <= peer_count,
            match_index.len() > peer_count,
            count == 1 + count_at_least(match_index@.subrange(1, i + 1), n),
            count <= i + 1,
        decreases peer_count - i,
    {
        assert(match_index@.subrange(1, i + 2).drop_last() =~= match_index@.subrange(1, i + 1));
        if match_index[i + 1] >= n {
            count = count + 1;
        }
        i = i + 1;
    }
    count
}

/// Moves a leader's commit index to the highest index it may commit, if that
/// is above the current one; anything else leaves the node unchanged.
pub fn advance_commit_index(state: &mut RaftState, log: &LogStore)
    requires
        old(state).role == NodeRole::Leader && old(state).leader_state is Some ==> old(state).leader_state->0.match_index.len()
            > old(state).peers.len(),
    ensures
        final(state).node_id == old(state).node_id,
        final(state).role == old(state).role,
        final(state).persistent == old(state).persistent,
        final(state).leader_state == old(state).leader_state,
        final(state).leader_id == old(state).leader_id,
        final(state).peers == old(state).peers,
        final(state).volatile.last_applied == old(state).volatile.last_applied,
        final(state).volatile.commit_index >= old(state).volatile.commit_index,
        (old(state).role != NodeRole::Leader || old(state).leader_state is None) ==> final(state).volatile
            == old(state).volatile,
        (old(state).role == NodeRole::Leader && old(state).leader_state is Some) ==> {
            let term = old(state).persistent.current_term;
            let matched = old(state).leader_state->0.match_index@;
            let peer_count = old(state).peers.len() as int;
            let c = final(state).volatile.commit_index;
            &&& c <= (if old(state).volatile.commit_index >= log@.last_index_u64() {
                old(state).volatile.commit_index
            } else {
                log@.last_index_u64()
            })
            &&& c > old(state).volatile.commit_index ==> can_commit(log@, term, matched, peer_count, c)
            &&& forall|n: u64| c < n <= log@.last_index_u64() ==> !can_commit(log@, term, matched, peer_count, n)
        },
        old(state).wf() ==> final(state).wf(),
{
    if state.role != NodeRole::Leader {
        return;
    }
    let current_term = state.persistent.current_term;
    let commit_index = state.volatile.commit_index;
    let last_log_index = log.last_index();
    let peer_count = state.peers.len();
    let majority = state.majority();
    let mut found: Option<u64> = None;
    match &state.leader_state {
        Some(ls) => {
            let ghost matched = ls.match_index@;
            let mut n = last_log_index;
            while n > commit_index
                invariant_except_break
                    commit_index <= n <= last_log_index || (n == last_log_index && last_log_index < commit_index),
                    found is None,
                invariant
                    ls.match_index.len() > peer_count,
                    matched == ls.match_index@,
                    majority == majority_of(peer_count + 1),
                    forall|m: u64| n < m <= last_log_index ==> !can_commit(log@, current_term, matched, peer_count as int, m),
                ensures
                    found is Some ==> {
                        let c = found->0;
                        &&& commit_index < c <= last_log_index
                        &&& can_commit(log@, current_term, matched, peer_count as int, c)
                        &&& forall|m: u64| c < m <= last_log_index ==> !can_commit(log@, current_term, matched, peer_count as int, m)
                    },
                    found is None ==> forall|m: u64| commit_index < m <= last_log_index ==> !can_commit(log@, current_term, matched, peer_count as int, m),
                decreases n,
            {
                let entry_term = log.term_or_zero(n);
                if entry_term == current_term {
                    let count = replication_count(&ls.match_index, peer_count, n);
                    if count >= majority {
                        found = Some(n);
                        break;
                    }
                }
                n = n - 1;
            }
        },
        None => {},
    }
    match found {
        Some(c) => {
            state.volatile.commit_index = c;
        },
        None => {},
    }
}


/// Views of a sequence of byte vectors.
pub open spec fn byte_views(v: Seq<Vec<u8>>) -> Seq<Seq<u8>> {
    v.map_values(|b: Vec<u8>| b@)
}

/// The non-empty commands of the held entries with index `lo` to `hi`, in
/// log order.
pub open spec fn commands_between(log: LogView, lo: int, hi: int) -> Seq<Seq<u8>>
    decreases hi - lo + 1,
{
    if hi < lo {
        Seq::empty()
    } else {
        let earlier = commands_between(log, lo, hi - 1);
        if log.holds(hi) && log.entry_at(hi).command.len() > 0 {
            earlier.push(log.entry_at(hi).command)
        } else {
            earlier
        }
    }
}

/// Handing out commands in two steps gives the same commands as one step:
/// the commands from `lo` to `hi` are those from `lo` to `mid` followed by
/// those after `mid`, so successive calls hand out each command once.
pub proof fn lemma_commands_split(log: LogView, lo: int, mid: int, hi: int)
    requires
        lo <= mid + 1,
        mid <= hi,
    ensures
        commands_between(log, lo, hi) == commands_between(log, lo, mid) + commands_between(log, mid + 1, hi),
    decreases hi - mid,
{
    if hi == mid {
        assert(commands_between(log, mid + 1, hi) =~= Seq::<Seq<u8>>::empty());
        assert(commands_between(log, lo, hi) =~= commands_between(log, lo, mid) + Seq::<Seq<u8>>::empty());
    } else {
        lemma_commands_split(log, lo, mid, hi - 1);
        let a = commands_between(log, lo, mid);
        let b = commands_between(log, mid + 1, hi - 1);
        if log.holds(hi) && log.entry_at(hi).command.len() > 0 {
            assert((a + b).push(log.entry_at(hi).command) =~= a + b.push(log.entry_at(hi).command));
        }
    }
}

/// A node's term never goes down when it accepts a leader.
pub proof fn lemma_following_never_lowers_term(p: PersistentState, term: u64)
    ensures
        follower_persistent(p, term).current_term >= p.current_term,
        follower_persistent(p, term).current_term >= term,
{
}

/// Hands over the commands committed since the last call, in log order, and
/// records them as applied; None when nothing new was committed. Empty
/// (no-op) entries carry no command and are skipped.
pub fn take_committed_commands(state: &mut RaftState, log: &LogStore) -> (r: Option<Vec<Vec<u8>>>)
    ensures
        old(state).volatile.commit_index <= old(state).volatile.last_applied ==> r is None && *final(state)
            == *old(state),
        old(state).volatile.commit_index > old(state).volatile.last_applied ==> {
            &&& r is Some
            &&& byte_views(r->0@) == commands_between(
                log@,
                old(state).volatile.last_applied + 1,
                old(state).volatile.commit_index as int,
            )
            &&& final(state).volatile == (crate::state::VolatileState {
                commit_index: old(state).volatile.commit_index,
                last_applied: old(state).volatile.commit_index,
            })
            &&& final(state).persistent == old(state).persistent
            &&& final(state).role == old(state).role
            &&& final(state).node_id == old(state).node_id
            &&& final(state).leader_state == old(state).leader_state
            &&& final(state).leader_id == old(state).leader_id
            &&& final(state).peers == old(state).peers
        },
{
    let commit_index = state.volatile.commit_index;
    let last_applied = state.volatile.last_applied;
    if commit_index <= last_applied {
        return None;
    }
    let mut out: Vec<Vec<u8>> = Vec::new();
    let mut i = last_applied;
    assert(byte_views(out@) =~= commands_between(log@, last_applied + 1, last_applied as int));
    while i < commit_index
        invariant
            last_applied <= i <= commit_index,
            byte_views(out@) == commands_between(log@, last_applied + 1, i as int),
        decreases commit_index - i,
    {
        i = i + 1;
        let ghost before = out@;
        match log.get(i) {
            Some(entry) => {
                if entry.command.len() > 0 {
                    let cmd = entry.command.clone();
                    assert(cmd@ =~= entry.command@);
                    out.push(cmd);
                    assert(byte_views(out@) =~= byte_views(before).push(cmd@));
                }
            },
            None => {},
        }
    }
    state.volatile.last_applied = commit_index;
    Some(out)
}

/// Folds the committed prefix of the log into a snapshot when the commit
/// index is past the current snapshot. Returns whether it did; the state
/// machine's image and the log must then be saved together.
pub fn compact_committed(state: &RaftState, log: &mut LogStore) -> (r: bool)
    ensures
        r == (state.volatile.commit_index > 0 && state.volatile.commit_index > old(log)@.snapshot_last_index),
        r ==> final(log)@ == old(log)@.compacted(
            state.volatile.commit_index,
            old(log)@.term_or_zero(state.volatile.commit_index as int),
        ),
        !r ==> final(log)@ == old(log)@,
{
    let commit_index = state.volatile.commit_index;
    if commit_index == 0 {
        return false;
    }
    let snapshot_term = log.term_or_zero(commit_index);
    if commit_index <= log.snapshot_last_index {
        return false;
    }
    log.apply_snapshot(commit_index, snapshot_term);
    true
}

/// Compaction keeps the log's end and every entry after the snapshot point;
/// the last term stays the same as well.
pub proof fn lemma_compaction_keeps_later_entries(log: LogView, index: u64)
    requires
        log.snapshot_last_index < index <= log.last_index(),
    ensures
        log.compacted(index, log.term_or_zero(index as int)).last_index() == log.last_index(),
        log.compacted(index, log.term_or_zero(index as int)).last_term() == log.last_term(),
        forall|i: int| index < i <= log.last_index() ==> {
            &&& #[trigger] log.compacted(index, log.term_or_zero(index as int)).holds(i)
            &&& log.compacted(index, log.term_or_zero(index as int)).entry_at(i) == log.entry_at(i)
        },
{
    let c = log.compacted(index, log.term_or_zero(index as int));
    assert(c.entries.len() == log.entries.len() - (index - log.snapshot_last_index));
    if c.entries.len() > 0 {
        assert(c.entries.last() == log.entries.last());
    }
}

/// Counting the values that reach `n` one by one gives the number of values
/// of `s` that are at least `n`.
proof fn lemma_count_is_filter_len(s: Seq<u64>, n: u64)
    ensures
        count_at_least(s, n) == s.filter(|x: u64| x >= n).len(),
    decreases s.len(),
{
    reveal(Seq::filter);
    if s.len() > 0 {
        lemma_count_is_filter_len(s.drop_last(), n);
    }
}

/// A leader may commit index `n` exactly when it holds an entry of its own
/// term there and the leader together with the followers whose match index
/// reaches `n` make up more than half of the cluster.
pub proof fn lemma_commit_rule(log: LogView, term: u64, match_index: Seq<u64>, peer_count: int, n: u64)
    requires
        0 <= peer_count < match_index.len(),
        term > 0,
    ensures
        can_commit(log, term, match_index, peer_count, n) <==> {
            &&& log.snapshot_last_index < n <= log.snapshot_last_index + log.entries.len()
            &&& log.entries[n - log.snapshot_last_index - 1].term == term
            &&& 1 + match_index.subrange(1, peer_count + 1).filter(|x: u64| x >= n).len() > (peer_count + 1) / 2
        },
{
    lemma_count_is_filter_len(match_index.subrange(1, peer_count + 1), n);
}

/// The term a heartbeat carries for the entry before the new ones is the
/// term of the leader's own entry there, and the entries it carries are the
/// leader's held entries from the follower's next index on; so a follower
/// whose log equals the leader's agrees with it.
pub proof fn lemma_heartbeat_describes_leader_log(state: &RaftState, log: LogView, next_index: u64, req: &AppendEntriesRequest)
    requires
        is_heartbeat_for(state, log, next_index, req),
    ensures
        req.term == state.persistent.current_term,
        req.leader_id == state.node_id,
        req.leader_commit == state.volatile.commit_index,
        req.prev_log_index == (if next_index > 1 { next_index - 1 } else { 0 }),
        log.snapshot_last_index < req.prev_log_index <= log.snapshot_last_index + log.entries.len() ==> req.prev_log_term
            == log.entries[req.prev_log_index - log.snapshot_last_index - 1].term,
        req.prev_log_index == 0 ==> req.prev_log_term == 0,
        req.prev_log_index == 0 || log.snapshot_last_index < req.prev_log_index <= log.snapshot_last_index
            + log.entries.len() ==> log.matches(req.prev_log_index, req.prev_log_term),
        log.snapshot_last_index < next_index <= log.snapshot_last_index + log.entries.len() ==> entry_views(req.entries@)
            == log.entries.subrange(next_index - log.snapshot_last_index - 1, log.entries.len() as int),
        next_index <= log.snapshot_last_index || next_index > log.snapshot_last_index + log.entries.len()
            ==> req.entries@.len() == 0,
{
    assert(entry_views(req.entries@).len() == req.entries@.len());
}

/// An index a leader commits is held by a majority of the cluster, so any
/// majority that elects a later leader includes a node that holds it.
pub proof fn lemma_committed_index_overlaps_any_majority(log: LogView, term: u64, match_index: Seq<u64>, peer_count: int, n: u64, voters: int)
    requires
        peer_count >= 0,
        can_commit(log, term, match_index, peer_count, n),
        voters >= majority_of(peer_count + 1),
    ensures
        replicated_on(match_index, peer_count, n) + voters > peer_count + 1,
{
    crate::state::lemma_majorities_overlap(peer_count + 1);
}

} // verus!
