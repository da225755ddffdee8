//! The key/value state machine the log drives, and the commands it applies.

use vstd::prelude::*;

verus! {

/// A command recorded in the log.
#[derive(Debug)]
pub enum KVCommand {
    Put { key: String, value: Vec<u8> },
    Delete { key: String },
}

impl KVCommand {
    /// Store `value` under `key`.
    pub fn put(key: String, value: Vec<u8>) -> (r: Self)
        ensures
            r matches KVCommand::Put { key: k, value: v } && k@ == key@ && v@ == value@,
    {
        KVCommand::Put { key, value }
    }

    /// Remove `key`.
    pub fn delete(key: String) -> (r: Self)
        ensures
            r matches KVCommand::Delete { key: k } && k@ == key@,
    {
        KVCommand::Delete { key }
    }
}

/// Whether no key occurs twice.
pub open spec fn keys_distinct(s: Seq<(String, Vec<u8>)>) -> bool {
    forall|i: int, j: int| 0 <= i < j < s.len() ==> s[i].0@ != s[j].0@
}

/// Whether `k` is stored at some position of `s`.
pub open spec fn has_key(s: Seq<(String, Vec<u8>)>, k: Seq<char>) -> bool {
    exists|i: int| 0 <= i < s.len() && s[i].0@ == k
}

/// A position of `s` that stores `k`.
pub open spec fn key_position(s: Seq<(String, Vec<u8>)>, k: Seq<char>) -> int {
    choose|i: int| 0 <= i < s.len() && s[i].0@ == k
}

/// The key/value map a sequence of distinct pairs stands for.
pub open spec fn pairs_map(s: Seq<(String, Vec<u8>)>) -> Map<Seq<char>, Seq<u8>> {
    Map::new(|k: Seq<char>| has_key(s, k), |k: Seq<char>| s[key_position(s, k)].1@)
}

/// The in-memory key/value store.
#[derive(Debug)]
pub struct KVStore {
    data: Vec<(String, Vec<u8>)>,
}

/// With distinct keys, the position storing a key is the only one.
proof fn lemma_position_unique(s: Seq<(String, Vec<u8>)>, i: int)
    requires
        keys_distinct(s),
        0 <= i < s.len(),
    ensures
        has_key(s, s[i].0@),
        key_position(s, s[i].0@) == i,
{
    let k = s[i].0@;
    assert(has_key(s, k));
    let j = key_position(s, k);
    if j < i {
        assert(s[j].0@ != s[i].0@);
    } else if j > i {
        assert(s[i].0@ != s[j].0@);
    }
}

impl View for KVStore {
    type V = Map<Seq<char>, Seq<u8>>;

    closed spec fn view(&self) -> Map<Seq<char>, Seq<u8>> {
        pairs_map(self.data@)
    }
}

impl KVStore {
    #[verifier::type_invariant]
    closed spec fn distinct(&self) -> bool {
        keys_distinct(self.data@)
    }

    /// An empty store.
    pub fn new() -> (r: Self)
        ensures
            r@ == Map::<Seq<char>, Seq<u8>>::empty(),
    {
        let r = KVStore { data: Vec::new() };
        assert(r@ =~= Map::<Seq<char>, Seq<u8>>::empty());
        r
    }

    /// Position of `key`, if stored.
    fn find(&self, key: &String) -> (r: Option<usize>)
        ensures
            r is None <==> !self@.contains_key(key@),
            r is Some ==> r->0 < self.data.len() && self.data@[r->0 as int].0@ == key@,
    {
        proof {
            use_type_invariant(self);
        }
        let mut i: usize = 0;
        while i < self.data.len()
            invariant
                i <= self.data.len(),
                forall|j: int| 0 <= j < i ==> self.data@[j].0@ != key@,
            decreases self.data.len() - i,
        {
            if self.data[i].0 == *key {
                return Some(i);
            }
            i = i + 1;
        }
        None
    }

    /// The value stored under `key`.
    pub fn get(&self, key: &str) -> (r: Option<Vec<u8>>)
        ensures
            r is Some <==> self@.contains_key(key@),
            r is Some ==> r->0@ == self@[key@],
    {
        proof {
            use_type_invariant(self);
        }
        let k = key.to_owned();
        match self.find(&k) {
            Some(i) => {
                proof {
                    lemma_position_unique(self.data@, i as int);
                }
                let v = self.data[i].1.clone();
                assert(v@ =~= self.data@[i as int].1@);
                Some(v)
            },
            None => None,
        }
    }

    /// Stores `value` under `key`, replacing what was there.
    pub fn put(&mut self, key: String, value: Vec<u8>)
        ensures
            final(self)@ == old(self)@.insert(key@, value@),
    {
        proof {
            use_type_invariant(&*self);
        }
        let mut data = Vec::new();
        std::mem::swap(&mut data, &mut self.data);
        let ghost old_data = data@;
        let mut i: usize = 0;
        let mut found: Option<usize> = None;
        while i < data.len()
            invariant_except_break
                found is None,
            invariant
                i <= data.len(),
                data@ == old_data,
                forall|j: int| 0 <= j < i ==> data@[j].0@ != key@,
            ensures
                found is Some ==> found->0 < data.len() && data@[found->0 as int].0@ == key@,
                found is None ==> !has_key(old_data, key@),
            decreases data.len() - i,
        {
            if data[i].0 == key {
                found = Some(i);
                break;
            }
            i = i + 1;
        }
        match found {
            Some(i) => {
                proof {
                    lemma_pairs_map_update(old_data, i as int, (key, value));
                }
                data.set(i, (key, value));
            },
            None => {
                proof {
                    lemma_pairs_map_push(old_data, (key, value));
                }
                data.push((key, value));
            },
        }
        self.data = data;
    }

    /// Removes `key`; returns whether it was stored.
    pub fn delete(&mut self, key: &str) -> (r: bool)
        ensures
            r == old(self)@.contains_key(key@),
            final(self)@ == old(self)@.remove(key@),
    {
        proof {
            use_type_invariant(&*self);
        }
        let k = key.to_owned();
        match self.find(&k) {
            Some(i) => {
                let mut data = Vec::new();
                std::mem::swap(&mut data, &mut self.data);
                proof {
                    lemma_pairs_map_remove(data@, i as int);
                }
                data.remove(i);
                self.data = data;
                true
            },
            None => {
                assert(old(self)@.remove(key@) =~= old(self)@);
                false
            },
        }
    }

    /// Copies of the stored pairs, each key once.
    pub fn entries(&self) -> (r: Vec<(String, Vec<u8>)>)
        ensures
            keys_distinct(r@),
            pairs_map(r@) == self@,
    {
        proof {
            use_type_invariant(self);
        }
        let mut out: Vec<(String, Vec<u8>)> = Vec::new();
        let mut i: usize = 0;
        while i < self.data.len()
            invariant
                i <= self.data.len(),
                keys_distinct(self.data@),
                out.len() == i,
                forall|j: int| 0 <= j < i ==> #[trigger] out@[j].0@ == self.data@[j].0@ && out@[j].1@ == self.data@[j].1@,
            decreases self.data.len() - i,
        {
            let k = self.data[i].0.clone();
            let v = self.data[i].1.clone();
            assert(v@ =~= self.data@[i as int].1@);
            out.push((k, v));
            i = i + 1;
        }
        proof {
            let a = out@;
            let b = self.data@;
            assert forall|x: int, y: int| 0 <= x < y < a.len() implies a[x].0@ != a[y].0@ by {
                assert(b[x].0@ != b[y].0@);
            }
            assert forall|k: Seq<char>| #[trigger] has_key(a, k) == has_key(b, k) by {
                if has_key(a, k) {
                    let p = key_position(a, k);
                    assert(b[p].0@ == k);
                }
                if has_key(b, k) {
                    let p = key_position(b, k);
                    assert(a[p].0@ == k);
                }
            }
            assert forall|k: Seq<char>| has_key(a, k) implies #[trigger] pairs_map(a)[k] == pairs_map(b)[k] by {
                let p = key_position(a, k);
                lemma_position_unique(a, p);
                assert(b[p].0@ == k);
                lemma_position_unique(b, p);
            }
            assert(pairs_map(a) =~= pairs_map(b));
        }
        out
    }

    /// Applies a command taken from a committed log entry.
    pub fn apply_command(&mut self, command: &KVCommand)
        ensures
            match command {
                KVCommand::Put { key, value } => final(self)@ == old(self)@.insert(key@, value@),
                KVCommand::Delete { key } => final(self)@ == old(self)@.remove(key@),
            },
    {
        match command {
            KVCommand::Put { key, value } => {
                let v = value.clone();
                assert(v@ =~= value@);
                self.put(key.clone(), v);
            },
            KVCommand::Delete { key } => {
                self.delete(key.as_str());
            },
        }
    }
}

/// Replacing the pair at a position with one of the same key stores the new
/// value under that key.
proof fn lemma_pairs_map_update(s: Seq<(String, Vec<u8>)>, i: int, pair: (String, Vec<u8>))
    requires
        keys_distinct(s),
        0 <= i < s.len(),
        s[i].0@ == pair.0@,
    ensures
        keys_distinct(s.update(i, pair)),
        pairs_map(s.update(i, pair)) == pairs_map(s).insert(pair.0@, pair.1@),
{
    let t = s.update(i, pair);
    assert forall|a: int, b: int| 0 <= a < b < t.len() implies t[a].0@ != t[b].0@ by {
        assert(s[a].0@ != s[b].0@);
    }
    assert forall|k: Seq<char>| #[trigger] has_key(t, k) == (has_key(s, k) || k == pair.0@) by {
        if has_key(t, k) {
            let p = key_position(t, k);
            assert(s[p].0@ == k);
        }
        if has_key(s, k) {
            let p = key_position(s, k);
            assert(t[p].0@ == k);
        }
        if k == pair.0@ {
            assert(t[i].0@ == k);
        }
    }
    assert forall|k: Seq<char>| has_key(t, k) implies #[trigger] pairs_map(t)[k] == pairs_map(s).insert(pair.0@, pair.1@)[k] by {
        let p = key_position(t, k);
        lemma_position_unique(t, p);
        if k == pair.0@ {
            lemma_position_unique(t, i);
        } else {
            lemma_position_unique(s, p);
        }
    }
    assert(pairs_map(t) =~= pairs_map(s).insert(pair.0@, pair.1@));
}

/// Appending a pair with a new key stores its value under that key.
proof fn lemma_pairs_map_push(s: Seq<(String, Vec<u8>)>, pair: (String, Vec<u8>))
    requires
        keys_distinct(s),
        !has_key(s, pair.0@),
    ensures
        keys_distinct(s.push(pair)),
        pairs_map(s.push(pair)) == pairs_map(s).insert(pair.0@, pair.1@),
{
    let t = s.push(pair);
    assert forall|a: int, b: int| 0 <= a < b < t.len() implies t[a].0@ != t[b].0@ by {
        if b < s.len() {
            assert(s[a].0@ != s[b].0@);
        } else {
            assert(t[a] == s[a]);
        }
    }
    assert forall|k: Seq<char>| #[trigger] has_key(t, k) == (has_key(s, k) || k == pair.0@) by {
        if has_key(t, k) {
            let p = key_position(t, k);
            if p < s.len() {
                assert(s[p].0@ == k);
            }
        }
        if has_key(s, k) {
            let p = key_position(s, k);
            assert(t[p].0@ == k);
        }
        if k == pair.0@ {
            assert(t[s.len() as int].0@ == k);
        }
    }
    assert forall|k: Seq<char>| has_key(t, k) implies #[trigger] pairs_map(t)[k] == pairs_map(s).insert(pair.0@, pair.1@)[k] by {
        let p = key_position(t, k);
        lemma_position_unique(t, p);
        if k == pair.0@ {
            lemma_position_unique(t, s.len() as int);
        } else {
            assert(p < s.len());
            assert(t[p] == s[p]);
            lemma_position_unique(s, p);
        }
    }
    assert(pairs_map(t) =~= pairs_map(s).insert(pair.0@, pair.1@));
}

/// Removing the pair at a position removes its key.
proof fn lemma_pairs_map_remove(s: Seq<(String, Vec<u8>)>, i: int)
    requires
        keys_distinct(s),
        0 <= i < s.len(),
    ensures
        keys_distinct(s.remove(i)),
        pairs_map(s.remove(i)) == pairs_map(s).remove(s[i].0@),
{
    let t = s.remove(i);
    let gone = s[i].0@;
    assert forall|a: int| 0 <= a < t.len() implies #[trigger] t[a] == (if a < i { s[a] } else { s[a + 1] }) by {}
    assert forall|a: int, b: int| 0 <= a < b < t.len() implies t[a].0@ != t[b].0@ by {
        let a2 = if a < i { a } else { a + 1 };
        let b2 = if b < i { b } else { b + 1 };
        assert(s[a2].0@ != s[b2].0@);
    }
    assert forall|k: Seq<char>| #[trigger] has_key(t, k) == (has_key(s, k) && k != gone) by {
        if has_key(t, k) {
            let p = key_position(t, k);
            let p2 = if p < i { p } else { p + 1 };
            assert(s[p2].0@ == k);
            if k == gone {
                if p2 < i {
                    assert(s[p2].0@ != s[i].0@);
                } else {
                    assert(s[i].0@ != s[p2].0@);
                }
            }
        }
        if has_key(s, k) && k != gone {
            let p = key_position(s, k);
            if p < i {
                assert(t[p].0@ == k);
            } else {
                assert(p != i);
                assert(t[p - 1].0@ == k);
            }
        }
    }
    assert forall|k: Seq<char>| has_key(t, k) implies #[trigger] pairs_map(t)[k] == pairs_map(s)[k] by {
        let p = key_position(t, k);
        lemma_position_unique(t, p);
        let p2 = if p < i { p } else { p + 1 };
        assert(s[p2] == t[p]);
        lemma_position_unique(s, p2);
    }
    assert(pairs_map(t) =~= pairs_map(s).remove(gone));
}

/// A read after a put of `key` gives back the value put and leaves the other
/// keys as they were; after a delete, `key` reads as absent.
pub proof fn lemma_read_your_writes(store: Map<Seq<char>, Seq<u8>>, key: Seq<char>, value: Seq<u8>, other: Seq<char>)
    requires
        other != key,
    ensures
        store.insert(key, value).contains_key(key),
        store.insert(key, value)[key] == value,
        store.insert(key, value).contains_key(other) == store.contains_key(other),
        store.contains_key(other) ==> store.insert(key, value)[other] == store[other],
        !store.remove(key).contains_key(key),
        store.remove(key).contains_key(other) == store.contains_key(other),
        store.contains_key(other) ==> store.remove(key)[other] == store[other],
{
}

impl Default for KVStore {
    fn default() -> (r: Self)
        ensures
            r@ == Map::<Seq<char>, Seq<u8>>::empty(),
    {
        KVStore::new()
    }
}

} // verus!
