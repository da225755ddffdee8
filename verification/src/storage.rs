//! What a node saves so that it can restart: its term, its vote, its log
//! and the snapshot, and where that is kept.

use crate::log::{entry_views, EntryView, LogEntry, LogStore, LogView};
use crate::state::{PersistentState, RaftState};
use crate::text::{decimal, decimal_string};
use vstd::prelude::*;

verus! {

/// Version of the saved format.
pub const STORAGE_VERSION: u32 = 2;

/// What saved data holds, as plain values.
pub struct DataView {
    pub version: u32,
    pub current_term: u64,
    pub voted_for: Option<u32>,
    pub log: Seq<EntryView>,
    pub snapshot_last_index: u64,
    pub snapshot_last_term: u64,
    pub snapshot_data: Option<Seq<u8>>,
}

/// The data a node saves.
#[derive(Debug)]
pub struct PersistentData {
    /// Version of the format, for later migrations.
    pub version: u32,
    pub current_term: u64,
    pub voted_for: Option<u32>,
    /// The entries held in memory.
    pub log: Vec<LogEntry>,
    /// Last index covered by the snapshot (0: none).
    pub snapshot_last_index: u64,
    /// Term of that entry.
    pub snapshot_last_term: u64,
    /// The state machine's image at the snapshot point.
    pub snapshot_data: Option<Vec<u8>>,
}

impl View for PersistentData {
    type V = DataView;

    open spec fn view(&self) -> DataView {
        DataView {
            version: self.version,
            current_term: self.current_term,
            voted_for: self.voted_for,
            log: entry_views(self.log@),
            snapshot_last_index: self.snapshot_last_index,
            snapshot_last_term: self.snapshot_last_term,
            snapshot_data: match self.snapshot_data {
                Some(d) => Some(d@),
                None => None,
            },
        }
    }
}

/// What gets saved of a node's term, vote and log (no snapshot image yet).
pub open spec fn saved_image(p: PersistentState, log: LogView) -> DataView {
    DataView {
        version: STORAGE_VERSION,
        current_term: p.current_term,
        voted_for: p.voted_for,
        log: log.entries,
        snapshot_last_index: log.snapshot_last_index,
        snapshot_last_term: log.snapshot_last_term,
        snapshot_data: None,
    }
}

/// The log a node restores from saved data.
pub open spec fn restored_log(d: DataView) -> LogView {
    LogView {
        snapshot_last_index: d.snapshot_last_index,
        snapshot_last_term: d.snapshot_last_term,
        entries: d.log,
    }
}

/// The term and vote a node restores from saved data.
pub open spec fn restored_persistent(d: DataView) -> PersistentState {
    PersistentState { current_term: d.current_term, voted_for: d.voted_for }
}

/// Copies of `entries`.
fn clone_entries(entries: &Vec<LogEntry>) -> (r: Vec<LogEntry>)
    ensures
        entry_views(r@) == entry_views(entries@),
{
    let mut out: Vec<LogEntry> = Vec::new();
    let mut i: usize = 0;
    while i < entries.len()
        invariant
            i <= entries.len(),
            entry_views(out@) =~= entry_views(entries@).subrange(0, i as int),
        decreases entries.len() - i,
    {
        let ghost before = out@;
        out.push(entries[i].clone());
        assert(entry_views(out@) =~= entry_views(before).push(entries@[i as int]@));
        i = i + 1;
    }
    assert(entry_views(entries@).subrange(0, entries.len() as int) =~= entry_views(entries@));
    out
}

impl PersistentData {
    /// The data to save for a node's term, vote and log.
    pub fn from_state_and_log(persistent_state: &PersistentState, log_store: &LogStore) -> (r: Self)
        ensures
            r@ == saved_image(*persistent_state, log_store@),
    {
        PersistentData {
            version: STORAGE_VERSION,
            current_term: persistent_state.current_term,
            voted_for: persistent_state.voted_for,
            log: clone_entries(&log_store.entries),
            snapshot_last_index: log_store.snapshot_last_index,
            snapshot_last_term: log_store.snapshot_last_term,
            snapshot_data: None,
        }
    }

    /// The same data, carrying the state machine's image at the snapshot.
    pub fn with_snapshot(self, snapshot_data: Vec<u8>) -> (r: Self)
        ensures
            r@ == (DataView { snapshot_data: Some(snapshot_data@), ..self@ }),
    {
        let mut d = self;
        d.snapshot_data = Some(snapshot_data);
        d
    }

    /// The node state to restart from: a follower with the saved term and
    /// vote.
    pub fn to_raft_state(&self, node_id: u32, peers: Vec<u32>) -> (r: RaftState)
        ensures
            r.persistent == restored_persistent(self@),
            r.node_id == node_id,
            r.role == crate::state::NodeRole::Follower,
            r.volatile == (crate::state::VolatileState { commit_index: 0, last_applied: 0 }),
            r.leader_state is None,
            r.leader_id is None,
            r.peers@ == peers@,
            r.wf(),
    {
        RaftState::from_persistent(node_id, peers, self.current_term, self.voted_for)
    }

    /// The log to restart from.
    pub fn to_log_store(&self) -> (r: LogStore)
        ensures
            r@ == restored_log(self@),
    {
        let mut store = LogStore::from_entries(clone_entries(&self.log));
        store.snapshot_last_index = self.snapshot_last_index;
        store.snapshot_last_term = self.snapshot_last_term;
        store
    }
}

/// What a node restores is what it saved: the same log, term and vote, with
/// or without a snapshot image attached.
pub proof fn lemma_restore_gives_back_saved(p: PersistentState, log: LogView, image: Option<Seq<u8>>)
    ensures
        restored_log(saved_image(p, log)) == log,
        restored_persistent(saved_image(p, log)) == p,
        restored_log(DataView { snapshot_data: image, ..saved_image(p, log) }) == log,
        restored_persistent(DataView { snapshot_data: image, ..saved_image(p, log) }) == p,
{
}

/// `dir` followed by the path component `component`, the way a path is
/// extended on Unix: nothing is added to an empty directory, and no second
/// separator after one that is already there.
pub open spec fn join_path(dir: Seq<char>, component: Seq<char>) -> Seq<char> {
    if dir.len() == 0 {
        component
    } else if dir.last() == '/' {
        dir + component
    } else {
        dir + "/"@ + component
    }
}

/// Where a node keeps its saved data: `<data_dir>/node_<id>/raft_state.json`.
pub open spec fn storage_path(data_dir: Seq<char>, node_id: u32) -> Seq<char> {
    join_path(join_path(data_dir, "node_"@ + decimal(node_id as nat)), "raft_state.json"@)
}

fn join(dir: String, component: &str) -> (r: String)
    ensures
        r@ == join_path(dir@, component@),
{
    let n = dir.as_str().unicode_len();
    if n == 0 {
        component.to_owned()
    } else if dir.as_str().get_char(n - 1) == '/' {
        dir.concat(component)
    } else {
        dir.concat("/").concat(component)
    }
}

/// The place where a node's saved data lives.
#[derive(Debug)]
pub struct PersistentStorage {
    path: String,
}

impl PersistentStorage {
    /// The file the data is written to.
    pub closed spec fn spec_path(&self) -> Seq<char> {
        self.path@
    }

    /// Storage for node `node_id` under `data_dir`.
    pub fn new(data_dir: &str, node_id: u32) -> (r: Self)
        ensures
            r.spec_path() == storage_path(data_dir@, node_id),
    {
        let dir = join(data_dir.to_owned(), String::from_str("node_").concat(decimal_string(node_id as u64).as_str()).as_str());
        let path = join(dir, "raft_state.json");
        PersistentStorage { path }
    }

    /// The file the data is written to.
    pub fn path(&self) -> (r: &String)
        ensures
            r@ == self.spec_path(),
    {
        &self.path
    }
}

} // verus!
