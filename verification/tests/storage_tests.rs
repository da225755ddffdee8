use raft_kv::log::{LogEntry, LogStore};
use raft_kv::state::PersistentState;
use raft_kv::storage::{PersistentData, PersistentStorage, STORAGE_VERSION};

#[test]
fn test_from_state_and_log() {
    let persistent_state = PersistentState { current_term: 10, voted_for: Some(3) };
    let log_store = LogStore::from_entries(vec![LogEntry::new(1, 1, vec![1]), LogEntry::new(2, 2, vec![2])]);

    let data = PersistentData::from_state_and_log(&persistent_state, &log_store);
    assert_eq!(data.current_term, 10);
    assert_eq!(data.voted_for, Some(3));
    assert_eq!(data.log.len(), 2);
}

#[test]
fn storage_restore_gives_back_saved_state() {
    let mut log_store = LogStore::from_entries(vec![LogEntry::new(3, 11, vec![1])]);
    log_store.snapshot_last_index = 10;
    log_store.snapshot_last_term = 2;
    let persistent_state = PersistentState { current_term: 5, voted_for: Some(2) };

    let data = PersistentData::from_state_and_log(&persistent_state, &log_store).with_snapshot(vec![1, 2, 3, 4]);
    assert_eq!(data.version, STORAGE_VERSION);
    assert_eq!(data.snapshot_data, Some(vec![1, 2, 3, 4]));

    let restored = data.to_log_store();
    assert_eq!(restored.snapshot_last_index, 10);
    assert_eq!(restored.snapshot_last_term, 2);
    assert_eq!(restored.last_index(), 11);
    assert_eq!(restored.get(11).unwrap().command, vec![1]);

    let state = data.to_raft_state(1, vec![2, 3]);
    assert_eq!(state.persistent, persistent_state);
    assert_eq!(state.peers, vec![2, 3]);
    assert_eq!(state.volatile.commit_index, 0);
}

#[test]
fn storage_path_under_data_dir() {
    assert_eq!(PersistentStorage::new("./data", 1).path(), "./data/node_1/raft_state.json");
    assert_eq!(PersistentStorage::new("/var/lib/raft/", 23).path(), "/var/lib/raft/node_23/raft_state.json");
    assert_eq!(PersistentStorage::new("", 0).path(), "node_0/raft_state.json");
}
