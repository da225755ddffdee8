//! The replicated log: entries addressed by a 1-based logical index, with an
//! optional snapshot prefix that has been compacted away.

use vstd::prelude::*;

verus! {

/// What a log entry holds, as plain values.
pub struct EntryView {
    pub term: u64,
    pub index: u64,
    pub command: Seq<u8>,
}

/// One entry of the replicated log.
#[derive(Debug)]
pub struct LogEntry {
    pub term: u64,
    pub index: u64,
    pub command: Vec<u8>,
}

impl View for LogEntry {
    type V = EntryView;

    open spec fn view(&self) -> EntryView {
        EntryView { term: self.term, index: self.index, command: self.command@ }
    }
}

impl Clone for LogEntry {
    fn clone(&self) -> (r: Self)
        ensures
            r@ == self@,
    {
        let command = self.command.clone();
        assert(command@ =~= self.command@);
        LogEntry { term: self.term, index: self.index, command }
    }
}

impl LogEntry {
    /// An entry carrying `command`, written in `term` at position `index`.
    pub fn new(term: u64, index: u64, command: Vec<u8>) -> (r: Self)
        ensures
            r@ == (EntryView { term, index, command: command@ }),
    {
        LogEntry { term, index, command }
    }

    /// The empty entry a new leader writes at the start of its term.
    pub fn no_op(term: u64, index: u64) -> (r: Self)
        ensures
            r@ == (EntryView { term, index, command: Seq::<u8>::empty() }),
    {
        LogEntry { term, index, command: Vec::new() }
    }
}


/// The log as a mathematical value: the compacted prefix, described by the
/// index and term of its last entry, and the entries that follow it.
pub struct LogView {
    pub snapshot_last_index: u64,
    pub snapshot_last_term: u64,
    pub entries: Seq<EntryView>,
}

impl LogView {
    /// Logical index of the last entry, snapshot included.
    pub open spec fn last_index(self) -> int {
        self.snapshot_last_index + self.entries.len()
    }

    /// `last_index`, held at `u64::MAX` where it would not fit.
    pub open spec fn last_index_u64(self) -> u64 {
        if self.last_index() <= u64::MAX {
            self.last_index() as u64
        } else {
            u64::MAX
        }
    }

    /// Whether an entry with logical `index` is still held in memory.
    pub open spec fn holds(self, index: int) -> bool {
        self.snapshot_last_index < index <= self.last_index()
    }

    /// The held entry with logical `index`.
    pub open spec fn entry_at(self, index: int) -> EntryView {
        self.entries[index - self.snapshot_last_index - 1]
    }

    /// The term of the last entry, or of the snapshot when none is held.
    pub open spec fn last_term(self) -> u64 {
        if self.entries.len() > 0 {
            self.entries.last().term
        } else {
            self.snapshot_last_term
        }
    }

    /// Term of the held entry at `index`, 0 where there is none.
    pub open spec fn term_or_zero(self, index: int) -> u64 {
        if self.holds(index) {
            self.entry_at(index).term
        } else {
            0
        }
    }

    /// Whether the log agrees with a leader about the entry before new ones.
    pub open spec fn matches(self, prev_index: u64, prev_term: u64) -> bool {
        prev_index == 0 || (self.holds(prev_index as int) && self.entry_at(prev_index as int).term
            == prev_term)
    }

    /// How many held entries have a logical index below `from_index`.
    pub open spec fn kept_below(self, from_index: int) -> int {
        if from_index <= self.snapshot_last_index + 1 {
            0
        } else if from_index - self.snapshot_last_index - 1 >= self.entries.len() {
            self.entries.len() as int
        } else {
            from_index - self.snapshot_last_index - 1
        }
    }

    /// The log without the entries at `from_index` and after.
    pub open spec fn truncated(self, from_index: int) -> LogView {
        LogView { entries: self.entries.subrange(0, self.kept_below(from_index)), ..self }
    }

    /// The held entries from logical index `start` to the end.
    pub open spec fn suffix_from(self, start: int) -> Seq<EntryView> {
        if start <= self.snapshot_last_index || start > self.last_index() {
            Seq::empty()
        } else {
            self.entries.subrange(start - self.snapshot_last_index - 1, self.entries.len() as int)
        }
    }

    /// The log after everything up to `index` went into a snapshot whose last
    /// entry has `term`.
    pub open spec fn compacted(self, index: u64, term: u64) -> LogView {
        if index <= self.snapshot_last_index {
            self
        } else {
            let dropped = if index - self.snapshot_last_index >= self.entries.len() {
                self.entries.len() as int
            } else {
                index - self.snapshot_last_index
            };
            LogView {
                snapshot_last_index: index,
                snapshot_last_term: term,
                entries: self.entries.subrange(dropped, self.entries.len() as int),
            }
        }
    }
}

/// Views of a sequence of entries.
pub open spec fn entry_views(entries: Seq<LogEntry>) -> Seq<EntryView> {
    entries.map_values(|e: LogEntry| e@)
}

/// The in-memory log.
#[derive(Debug)]
pub struct LogStore {
    pub entries: Vec<LogEntry>,
    /// Logical index of the last entry covered by the snapshot (0: none).
    pub snapshot_last_index: u64,
    /// Term of that entry.
    pub snapshot_last_term: u64,
}

impl View for LogStore {
    type V = LogView;

    open spec fn view(&self) -> LogView {
        LogView {
            snapshot_last_index: self.snapshot_last_index,
            snapshot_last_term: self.snapshot_last_term,
            entries: entry_views(self.entries@),
        }
    }
}


impl LogStore {
    /// An empty log with no snapshot.
    pub fn new() -> (r: Self)
        ensures
            r@.snapshot_last_index == 0,
            r@.snapshot_last_term == 0,
            r@.entries == Seq::<EntryView>::empty(),
    {
        let r = LogStore { entries: Vec::new(), snapshot_last_index: 0, snapshot_last_term: 0 };
        assert(r@.entries =~= Seq::<EntryView>::empty());
        r
    }

    /// A log holding `entries` and no snapshot.
    pub fn from_entries(entries: Vec<LogEntry>) -> (r: Self)
        ensures
            r@.snapshot_last_index == 0,
            r@.snapshot_last_term == 0,
            r@.entries == entry_views(entries@),
    {
        LogStore { entries, snapshot_last_index: 0, snapshot_last_term: 0 }
    }

    /// Logical index of the last entry (0 for an empty log without snapshot).
    pub fn last_index(&self) -> (r: u64)
        ensures
            r == self@.last_index_u64(),
    {
        let len = self.entries.len() as u64;
        if len <= u64::MAX - self.snapshot_last_index {
            self.snapshot_last_index + len
        } else {
            u64::MAX
        }
    }

    /// Term of the last entry, or of the snapshot when no entry is held.
    pub fn last_term(&self) -> (r: u64)
        ensures
            r == self@.last_term(),
    {
        let n = self.entries.len();
        if n > 0 {
            self.entries[n - 1].term
        } else {
            self.snapshot_last_term
        }
    }

    /// The entry at logical `index`, if it is held.
    pub fn get(&self, index: u64) -> (r: Option<&LogEntry>)
        ensures
            r is Some <==> self@.holds(index as int),
            r is Some ==> r.unwrap()@ == self@.entry_at(index as int),
    {
        if index <= self.snapshot_last_index {
            return None;
        }
        let offset = index - self.snapshot_last_index;
        if offset > self.entries.len() as u64 {
            return None;
        }
        let pos = (offset - 1) as usize;
        Some(&self.entries[pos])
    }

    /// Term of the held entry at `index`, 0 where there is none.
    pub fn term_or_zero(&self, index: u64) -> (r: u64)
        ensures
            r == self@.term_or_zero(index as int),
    {
        match self.get(index) {
            Some(e) => e.term,
            None => 0,
        }
    }

    /// Appends `entries` after the last one.
    pub fn append(&mut self, entries: Vec<LogEntry>)
        ensures
            final(self)@ == (LogView { entries: old(self)@.entries + entry_views(entries@), ..old(self)@ }),
    {
        let mut entries = entries;
        let ghost added = entries@;
        self.entries.append(&mut entries);
        assert(entry_views(self.entries@) =~= entry_views(old(self).entries@) + entry_views(added));
    }

    /// Appends one entry and returns the index it carries.
    pub fn append_one(&mut self, entry: LogEntry) -> (r: u64)
        ensures
            r == entry.index,
            final(self)@ == (LogView { entries: old(self)@.entries.push(entry@), ..old(self)@ }),
    {
        let index = entry.index;
        let ghost e = entry@;
        self.entries.push(entry);
        assert(entry_views(self.entries@) =~= entry_views(old(self).entries@).push(e));
        index
    }

    /// Drops the entries at `from_index` and after.
    pub fn truncate(&mut self, from_index: u64)
        ensures
            final(self)@ == old(self)@.truncated(from_index as int),
    {
        let ghost keep = self@.kept_below(from_index as int);
        if from_index <= self.snapshot_last_index {
            self.entries.clear();
        } else {
            let offset = from_index - self.snapshot_last_index;
            if offset <= self.entries.len() as u64 {
                self.entries.truncate((offset - 1) as usize);
            }
        }
        assert(entry_views(self.entries@) =~= entry_views(old(self).entries@).subrange(0, keep));
    }

    /// Copies of the held entries from logical index `start_index` on.
    pub fn entries_from(&self, start_index: u64) -> (r: Vec<LogEntry>)
        ensures
            entry_views(r@) == self@.suffix_from(start_index as int),
    {
        let mut out: Vec<LogEntry> = Vec::new();
        if start_index <= self.snapshot_last_index {
            assert(entry_views(out@) =~= Seq::<EntryView>::empty());
            return out;
        }
        let offset = start_index - self.snapshot_last_index;
        if offset > self.entries.len() as u64 {
            assert(entry_views(out@) =~= Seq::<EntryView>::empty());
            return out;
        }
        let first = (offset - 1) as usize;
        let mut i = first;
        while i < self.entries.len()
            invariant
                first <= i <= self.entries.len(),
                entry_views(out@) =~= entry_views(self.entries@).subrange(first as int, i as int),
            decreases self.entries.len() - i,
        {
            let e = self.entries[i].clone();
            let ghost before = out@;
            out.push(e);
            assert(entry_views(out@) =~= entry_views(before).push(self.entries@[i as int]@));
            i = i + 1;
        }
        out
    }

    /// Whether the entry at `prev_log_index` has term `prev_log_term`
    /// (index 0 always matches).
    pub fn match_entry(&self, prev_log_index: u64, prev_log_term: u64) -> (r: bool)
        ensures
            r == self@.matches(prev_log_index, prev_log_term),
    {
        if prev_log_index == 0 {
            return true;
        }
        match self.get(prev_log_index) {
            Some(entry) => entry.term == prev_log_term,
            None => false,
        }
    }

    /// Whether more entries than `threshold` are held in memory.
    pub fn should_snapshot(&self, threshold: u64) -> (r: bool)
        ensures
            r == (self@.entries.len() > threshold),
    {
        self.entries.len() as u64 > threshold
    }

    /// Folds every entry up to `index` into a snapshot whose last entry has
    /// `term`; nothing changes when the snapshot already reaches `index`.
    pub fn apply_snapshot(&mut self, index: u64, term: u64)
        ensures
            final(self)@ == old(self)@.compacted(index, term),
    {
        if index <= self.snapshot_last_index {
            return;
        }
        let covered = index - self.snapshot_last_index;
        let n = self.entries.len();
        let dropped: usize = if covered >= n as u64 { n } else { covered as usize };
        let rest = self.entries.split_off(dropped);
        self.entries = rest;
        self.snapshot_last_index = index;
        self.snapshot_last_term = term;
        assert(entry_views(self.entries@) =~= entry_views(old(self).entries@).subrange(dropped as int, n as int));
    }
}

/// Reading back an appended entry: after appending `e`, the log ends one
/// index further with `e` there, and every entry held before is unchanged.
pub proof fn lemma_read_after_append(log: LogView, e: EntryView)
    ensures
        ({
            let after = LogView { entries: log.entries.push(e), ..log };
            &&& after.last_index() == log.last_index() + 1
            &&& after.holds(after.last_index())
            &&& after.entry_at(after.last_index()) == e
            &&& after.last_term() == e.term
            &&& forall|i: int| #[trigger] log.holds(i) ==> after.holds(i) && after.entry_at(i) == log.entry_at(i)
        }),
{
}

/// Truncating at `from_index` keeps exactly the held entries below it,
/// unchanged.
pub proof fn lemma_truncate_keeps_prefix(log: LogView, from_index: int)
    ensures
        forall|i: int| #[trigger] log.truncated(from_index).holds(i) <==> (log.holds(i) && i < from_index),
        forall|i: int| #[trigger] log.truncated(from_index).holds(i) ==> log.truncated(from_index).entry_at(i)
            == log.entry_at(i),
{
}

/// The entries handed out from `start` are the held entries at `start`,
/// `start + 1`, ... up to the end of the log.
pub proof fn lemma_suffix_is_held_entries(log: LogView, start: int)
    requires
        log.holds(start),
    ensures
        log.suffix_from(start).len() == log.last_index() - start + 1,
        forall|k: int| 0 <= k < log.suffix_from(start).len() ==> #[trigger] log.suffix_from(start)[k] == log.entry_at(start + k),
{
}

/// The consistency check at index `i` compares `t` with the term of the
/// entry stored at `i` and with nothing else: index 0 always agrees, an
/// index the log does not hold never does, and entries added after `i` do
/// not change the answer.
pub proof fn lemma_match_compares_stored_term(log: LogView, i: u64, t: u64, later: Seq<EntryView>)
    ensures
        i == 0 ==> log.matches(i, t),
        log.snapshot_last_index < i <= log.snapshot_last_index + log.entries.len() ==> (log.matches(i, t)
            <==> log.entries[i - log.snapshot_last_index - 1].term == t),
        i > 0 && (i <= log.snapshot_last_index || i > log.snapshot_last_index + log.entries.len()) ==> !log.matches(
            i,
            t,
        ),
        log.snapshot_last_index < i <= log.snapshot_last_index + log.entries.len() ==> (LogView {
            entries: log.entries + later,
            ..log
        }).matches(i, t) == log.matches(i, t),
{
    let longer = LogView { entries: log.entries + later, ..log };
    if log.snapshot_last_index < i <= log.snapshot_last_index + log.entries.len() {
        assert(longer.entries[i - log.snapshot_last_index - 1] == log.entries[i - log.snapshot_last_index - 1]);
    }
}

impl Default for LogStore {
    fn default() -> (r: Self)
        ensures
            r@.snapshot_last_index == 0,
            r@.snapshot_last_term == 0,
            r@.entries == Seq::<EntryView>::empty(),
    {
        LogStore::new()
    }
}

} // verus!
