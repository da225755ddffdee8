use raft_kv::log::{LogEntry, LogStore};

#[test]
fn test_new_log_store() {
    let log = LogStore::new();
    assert_eq!(log.last_index(), 0);
    assert_eq!(log.last_term(), 0);
}

#[test]
fn test_append_single_entry() {
    let mut log = LogStore::new();

    let entry = LogEntry::new(1, 1, vec![1, 2, 3]);
    log.append(vec![entry]);

    assert_eq!(log.last_index(), 1);
    assert_eq!(log.last_term(), 1);
    assert_eq!(log.entries.len(), 1);
}

#[test]
fn test_append_multiple_entries() {
    let mut log = LogStore::new();

    let entries = vec![
        LogEntry::new(1, 1, vec![1]),
        LogEntry::new(1, 2, vec![2]),
        LogEntry::new(2, 3, vec![3]),
    ];
    log.append(entries);

    assert_eq!(log.last_index(), 3);
    assert_eq!(log.last_term(), 2);
}

#[test]
fn test_get_entry() {
    let mut log = LogStore::new();

    log.append(vec![LogEntry::new(1, 1, vec![10]), LogEntry::new(2, 2, vec![20])]);

    let entry1 = log.get(1);
    assert!(entry1.is_some());
    assert_eq!(entry1.unwrap().term, 1);
    assert_eq!(entry1.unwrap().command, vec![10]);

    let entry2 = log.get(2);
    assert_eq!(entry2.unwrap().term, 2);

    assert!(log.get(0).is_none());
    assert!(log.get(3).is_none());
}

#[test]
fn test_truncate() {
    let mut log = LogStore::new();

    log.append(vec![
        LogEntry::new(1, 1, vec![1]),
        LogEntry::new(1, 2, vec![2]),
        LogEntry::new(2, 3, vec![3]),
    ]);

    log.truncate(2);

    assert_eq!(log.last_index(), 1);
    assert_eq!(log.entries.len(), 1);

    log.truncate(1);
    assert_eq!(log.last_index(), 0);
}

#[test]
fn test_entries_from() {
    let mut log = LogStore::new();

    log.append(vec![
        LogEntry::new(1, 1, vec![1]),
        LogEntry::new(1, 2, vec![2]),
        LogEntry::new(2, 3, vec![3]),
    ]);

    let entries = log.entries_from(2);
    assert_eq!(entries.len(), 2);
    assert_eq!(entries[0].index, 2);
    assert_eq!(entries[1].index, 3);

    let entries = log.entries_from(1);
    assert_eq!(entries.len(), 3);

    let entries = log.entries_from(4);
    assert_eq!(entries.len(), 0);

    let entries = log.entries_from(0);
    assert_eq!(entries.len(), 0);
}

#[test]
fn test_match_entry() {
    let mut log = LogStore::new();

    log.append(vec![LogEntry::new(1, 1, vec![1]), LogEntry::new(1, 2, vec![2])]);

    assert!(log.match_entry(1, 1));
    assert!(log.match_entry(2, 1));
    assert!(!log.match_entry(1, 2));
    assert!(log.match_entry(0, 0));
    assert!(!log.match_entry(3, 1));
}

#[test]
fn test_append_one() {
    let mut log = LogStore::new();

    let index = log.append_one(LogEntry::new(1, 1, vec![1]));
    assert_eq!(index, 1);

    let index = log.append_one(LogEntry::new(1, 2, vec![2]));
    assert_eq!(index, 2);
}

#[test]
fn test_no_op_entry() {
    let entry = LogEntry::no_op(5, 10);
    assert_eq!(entry.term, 5);
    assert_eq!(entry.index, 10);
    assert_eq!(entry.command, Vec::<u8>::new());
}

#[test]
fn log_read_after_append_gives_entry_back() {
    let mut log = LogStore::new();
    log.append_one(LogEntry::new(1, 1, vec![7]));
    log.append_one(LogEntry::new(3, 2, vec![8, 9]));
    let last = log.last_index();
    assert_eq!(last, 2);
    let e = log.get(last).unwrap();
    assert_eq!(e.term, 3);
    assert_eq!(e.command, vec![8, 9]);
    assert_eq!(log.get(1).unwrap().command, vec![7]);
    assert_eq!(log.term_or_zero(2), 3);
    assert_eq!(log.term_or_zero(5), 0);
}

#[test]
fn log_indices_continue_after_snapshot() {
    let mut log = LogStore::from_entries(vec![LogEntry::new(3, 11, vec![1]), LogEntry::new(4, 12, vec![2])]);
    log.snapshot_last_index = 10;
    log.snapshot_last_term = 2;
    assert_eq!(log.last_index(), 12);
    assert_eq!(log.get(10).is_none(), true);
    assert_eq!(log.get(11).unwrap().term, 3);
    assert_eq!(log.get(12).unwrap().term, 4);
    assert!(log.get(13).is_none());
    assert_eq!(log.entries_from(12).len(), 1);
    assert_eq!(log.entries_from(10).len(), 0);
    log.truncate(12);
    assert_eq!(log.last_index(), 11);
    log.truncate(5);
    assert_eq!(log.last_index(), 10);
    assert_eq!(log.last_term(), 2);
}

#[test]
fn log_snapshot_keeps_later_entries_and_end() {
    let mut log = LogStore::new();
    for i in 1..=5u64 {
        log.append_one(LogEntry::new(if i < 4 { 1 } else { 2 }, i, vec![i as u8]));
    }
    log.apply_snapshot(3, 1);
    assert_eq!(log.snapshot_last_index, 3);
    assert_eq!(log.snapshot_last_term, 1);
    assert_eq!(log.entries.len(), 2);
    assert_eq!(log.last_index(), 5);
    assert_eq!(log.last_term(), 2);
    assert_eq!(log.get(4).unwrap().command, vec![4]);
    assert!(log.get(3).is_none());
    // an older snapshot point changes nothing
    log.apply_snapshot(2, 1);
    assert_eq!(log.snapshot_last_index, 3);
    assert_eq!(log.entries.len(), 2);
}

#[test]
fn log_should_snapshot_counts_entries_above_threshold() {
    let mut log = LogStore::new();
    for i in 1..=10u64 {
        log.append_one(LogEntry::new(1, i, vec![1]));
    }
    assert!(!log.should_snapshot(10));
    log.append_one(LogEntry::new(1, 11, vec![1]));
    assert!(log.should_snapshot(10));
}
