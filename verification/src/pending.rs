//! Client requests waiting for their log entry to be committed.

use std::collections::HashMap;
use vstd::std_specs::iter::IteratorSpec;
use vstd::prelude::*;

verus! {

broadcast use vstd::std_specs::hash::group_hash_axioms;

/// The waiters that stay after `commit_index` is committed: those waiting
/// for a later index.
pub open spec fn still_waiting<T>(waiting: Map<u64, T>, commit_index: u64) -> Map<u64, T> {
    waiting.restrict(waiting.dom().filter(|k: u64| k > commit_index))
}

/// Whether `released` holds exactly the waiters of `waiting` whose index is
/// committed by `commit_index`, each once.
pub open spec fn released_exactly<T>(released: Seq<(u64, T)>, waiting: Map<u64, T>, commit_index: u64) -> bool {
    &&& forall|i: int, j: int| 0 <= i < j < released.len() ==> released[i].0 != released[j].0
    &&& forall|i: int| 0 <= i < released.len() ==> {
        &&& released[i].0 <= commit_index
        &&& waiting.contains_key(released[i].0)
        &&& waiting[released[i].0] == released[i].1
    }
    &&& forall|k: u64| #[trigger] waiting.contains_key(k) && k <= commit_index ==> exists|i: int|
        0 <= i < released.len() && released[i].0 == k
}

/// Whether `key` occurs among the first `n` entries of `keys`.
spec fn taken_before(keys: Seq<u64>, n: int, key: u64) -> bool {
    exists|a: int| 0 <= a < n && keys[a] == key
}

/// The waiters, each under the log index it waits for; at most one per
/// index.
pub struct PendingRequests<T> {
    requests: HashMap<u64, T>,
}

impl<T> PendingRequests<T> {
    /// The waiting requests by log index.
    pub closed spec fn waiting(&self) -> Map<u64, T> {
        self.requests@
    }

    /// Nobody waiting.
    pub fn new() -> (r: Self)
        ensures
            r.waiting() == Map::<u64, T>::empty(),
    {
        PendingRequests { requests: HashMap::new() }
    }

    /// Number of waiting requests.
    pub fn len(&self) -> (r: usize)
        ensures
            r == self.waiting().len(),
    {
        self.requests.len()
    }

    /// Registers `waiter` for `log_index`, replacing a waiter already
    /// registered for that index.
    pub fn register(&mut self, log_index: u64, waiter: T)
        ensures
            final(self).waiting() == old(self).waiting().insert(log_index, waiter),
    {
        self.requests.insert(log_index, waiter);
    }

    /// Takes out every waiter whose index is committed by `commit_index`;
    /// the others keep waiting.
    pub fn notify_committed(&mut self, commit_index: u64) -> (r: Vec<(u64, T)>)
        ensures
            released_exactly(r@, old(self).waiting(), commit_index),
            final(self).waiting() == still_waiting(old(self).waiting(), commit_index),
    {
        let ghost orig = self.requests@;
        let mut due: Vec<u64> = Vec::new();
        let ghost all: Seq<u64> = vstd::std_specs::hash::spec_keys_iter(&self.requests).remaining().unref();
        let ghost mut n: int = 0;
        for k in it: self.requests.keys()
            invariant
                self.requests@ == orig,
                all == it.seq().unref(),
                n == it.index(),
                forall|i: int| 0 <= i < due.len() ==> #[trigger] due@[i] <= commit_index && orig.contains_key(due@[i]),
                forall|i: int, j: int| 0 <= i < j < due.len() ==> due@[i] != due@[j],
                0 <= n <= all.len(),
                forall|j: int| 0 <= j < n && #[trigger] all[j] <= commit_index ==> due@.contains(all[j]),
                forall|i: int| 0 <= i < due.len() ==> exists|j: int| 0 <= j < n && all[j] == #[trigger] due@[i],
        {
            proof {
                assert(all.to_set() == orig.dom());
                assert(all.no_duplicates());
                assert(all[n] == *k);
            }
            let ghost due_before = due@;
            if *k <= commit_index {
                proof {
                    assert(orig.dom().contains(*k)) by {
                        assert(all.contains(*k));
                    }
                    assert forall|i: int| 0 <= i < due.len() implies due@[i] != *k by {
                        let j = choose|j: int| 0 <= j < n && all[j] == due@[i];
                        assert(j != n);
                    }
                }
                due.push(*k);
                proof {
                    assert(due@[due.len() - 1] == all[n]);
                }
            }
            proof {
                assert forall|j: int| 0 <= j < n + 1 && #[trigger] all[j] <= commit_index implies due@.contains(all[j]) by {
                    if j < n {
                        let a = choose|a: int| 0 <= a < due_before.len() && due_before[a] == all[j];
                        assert(due@[a] == all[j]);
                    }
                }
                n = n + 1;
            }
        }
        proof {
            assert(n == all.len());
            assert(all.to_set() == orig.dom());
            assert forall|k: u64| #[trigger] orig.contains_key(k) && k <= commit_index implies due@.contains(k) by {
                assert(all.to_set().contains(k));
                let j = choose|j: int| 0 <= j < all.len() && all[j] == k;
                assert(all[j] == k);
            }
        }
        let mut out: Vec<(u64, T)> = Vec::new();
        let mut i: usize = 0;
        while i < due.len()
            invariant
                i <= due.len(),
                forall|a: int| 0 <= a < due.len() ==> #[trigger] due@[a] <= commit_index && orig.contains_key(due@[a]),
                forall|a: int, b: int| 0 <= a < b < due.len() ==> due@[a] != due@[b],
                forall|k: u64| #[trigger] orig.contains_key(k) && k <= commit_index ==> due@.contains(k),
                forall|k: u64| #[trigger] self.requests@.contains_key(k) <==> (orig.contains_key(k) && !taken_before(due@, i as int, k)),
                forall|k: u64| #[trigger] self.requests@.contains_key(k) ==> self.requests@[k] == orig[k],
                out.len() == i,
                forall|a: int| 0 <= a < i ==> #[trigger] out@[a].0 == due@[a] && out@[a].1 == orig[due@[a]],
            decreases due.len() - i,
        {
            let k = due[i];
            proof {
                assert(!taken_before(due@, i as int, k)) by {
                    if taken_before(due@, i as int, k) {
                        let a = choose|a: int| 0 <= a < i && due@[a] == k;
                        assert(due@[a] == due@[i as int]);
                    }
                }
                assert(self.requests@.contains_key(k));
            }
            let v = self.requests.remove(&k);
            let v = v.unwrap();
            proof {
                assert forall|x: u64| taken_before(due@, i + 1, x) <==> (taken_before(due@, i as int, x) || x == k) by {
                    if taken_before(due@, i + 1, x) {
                        let a = choose|a: int| 0 <= a < i + 1 && due@[a] == x;
                        if a < i {
                            assert(taken_before(due@, i as int, x));
                        }
                    }
                    if x == k {
                        assert(due@[i as int] == x);
                    }
                    if taken_before(due@, i as int, x) {
                        let a = choose|a: int| 0 <= a < i && due@[a] == x;
                        assert(0 <= a < i + 1 && due@[a] == x);
                    }
                }
            }
            out.push((k, v));
            i = i + 1;
        }
        proof {
            assert forall|k: u64| taken_before(due@, due.len() as int, k) <==> (orig.contains_key(k) && k <= commit_index) by {
                if taken_before(due@, due.len() as int, k) {
                    let a = choose|a: int| 0 <= a < due.len() && due@[a] == k;
                    assert(due@[a] <= commit_index && orig.contains_key(due@[a]));
                }
                if orig.contains_key(k) && k <= commit_index {
                    assert(due@.contains(k));
                    let a = choose|a: int| 0 <= a < due.len() && due@[a] == k;
                    assert(0 <= a < due.len() && due@[a] == k);
                }
            }
            assert(self.requests@ =~= still_waiting(orig, commit_index));
            assert forall|k: u64| #[trigger] orig.contains_key(k) && k <= commit_index implies exists|a: int|
                0 <= a < out@.len() && out@[a].0 == k by {
                assert(due@.contains(k));
                let a = choose|a: int| 0 <= a < due.len() && due@[a] == k;
                assert(out@[a].0 == k);
            }
        }
        out
    }
}

} // verus!
