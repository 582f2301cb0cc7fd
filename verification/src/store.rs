//! A keyed in-memory store with monotonic identifier generation.
//!
//! The store keeps a map from `u64` keys to records, together with the
//! insertion order of the live keys and a counter from which fresh
//! identifiers are drawn. The counter only ever grows, so every generated
//! identifier is strictly greater than all earlier ones and is never
//! reused. The map and the counter are guarded independently by the host
//! application; this core exposes them as one sequential structure.

use vstd::prelude::*;
use std::collections::HashMap;

verus! {

pub struct MemoryDb<T> {
    inner: HashMap<u64, T>,
    keys: Vec<u64>,
    next_id: u64,
}

impl<T> MemoryDb<T> {
    /// The stored records, as a map from identifier to record.
    pub closed spec fn map(&self) -> Map<u64, T> {
        self.inner@
    }

    /// The identifier the next `generate_id` call will return.
    pub closed spec fn next(&self) -> u64 {
        self.next_id
    }

    /// The live keys, in order of their most recent insertion.
    pub closed spec fn key_list(&self) -> Seq<u64> {
        self.keys@
    }

    /// The key list carries each live key exactly once, and nothing else.
    pub closed spec fn wf(&self) -> bool {
        &&& forall|i: int, j: int|
            0 <= i < j < self.keys@.len() ==> self.keys@[i] != self.keys@[j]
        &&& forall|k: u64| #[trigger] self.inner@.contains_key(k) <==> self.keys@.contains(k)
    }

    pub fn new() -> (r: Self)
        ensures
            r.wf(),
            r.map() == Map::<u64, T>::empty(),
            r.next() == 0,
            r.key_list() == Seq::<u64>::empty(),
    {
        MemoryDb { inner: HashMap::new(), keys: Vec::new(), next_id: 0 }
    }

    /// Store `value` under `key`, returning the record previously stored
    /// there, if any.
    pub fn insert(&mut self, key: u64, value: T) -> (r: Option<T>)
        requires
            old(self).wf(),
        ensures
            final(self).wf(),
            final(self).map() == old(self).map().insert(key, value),
            final(self).next() == old(self).next(),
            r is Some <==> old(self).map().contains_key(key),
            r matches Some(v) ==> v == old(self).map()[key],
            final(self).key_list() == if old(self).map().contains_key(key) {
                old(self).key_list()
            } else {
                old(self).key_list().push(key)
            },
    {
        let r = self.inner.insert(key, value);
        if r.is_none() {
            self.keys.push(key);
            proof {
                assert forall|k: u64| #[trigger] self.inner@.contains_key(k)
                    implies self.keys@.contains(k) by {
                    if k == key {
                        assert(self.keys@[self.keys@.len() - 1] == key);
                    } else {
                        assert(old(self).keys@.contains(k));
                        let i = choose|i: int|
                            0 <= i < old(self).keys@.len() && old(self).keys@[i] == k;
                        assert(self.keys@[i] == k);
                    }
                }
                assert forall|k: u64| self.keys@.contains(k)
                    implies #[trigger] self.inner@.contains_key(k) by {
                    let i = choose|i: int| 0 <= i < self.keys@.len() && self.keys@[i] == k;
                    if i < old(self).keys@.len() {
                        assert(old(self).keys@[i] == k);
                    }
                }
            }
        }
        r
    }

    /// Look up the record stored under `key`.
    pub fn get(&self, key: u64) -> (r: Option<&T>)
        ensures
            r matches Some(v) ==> self.map().contains_key(key) && *v == self.map()[key],
            r is None ==> !self.map().contains_key(key),
    {
        self.inner.get(&key)
    }

    /// Remove and return the record stored under `key`, if any.
    pub fn delete(&mut self, key: u64) -> (r: Option<T>)
        requires
            old(self).wf(),
        ensures
            final(self).wf(),
            final(self).map() == old(self).map().remove(key),
            final(self).next() == old(self).next(),
            r is Some <==> old(self).map().contains_key(key),
            r matches Some(v) ==> v == old(self).map()[key],
            !final(self).key_list().contains(key),
            forall|k: u64|
                k != key ==> (final(self).key_list().contains(k) <==> old(
                    self,
                ).key_list().contains(k)),
    {
        let r = self.inner.remove(&key);
        if r.is_some() {
            let mut i: usize = 0;
            while i < self.keys.len() && self.keys[i] != key
                invariant
                    0 <= i <= self.keys@.len(),
                    forall|j: int| 0 <= j < i ==> self.keys@[j] != key,
                decreases self.keys@.len() - i,
            {
                i = i + 1;
            }
            proof {
                assert(old(self).keys@.contains(key));
                let w = choose|w: int|
                    0 <= w < old(self).keys@.len() && old(self).keys@[w] == key;
                assert(self.keys@[w] == key);
            }
            self.keys.remove(i);
            proof {
                let ks = old(self).keys@;
                let i = i as int;
                assert(self.keys@ =~= ks.take(i) + ks.skip(i + 1));
                assert forall|k: u64| #[trigger] self.inner@.contains_key(k)
                    implies self.keys@.contains(k) by {
                    assert(ks.contains(k));
                    let j = choose|j: int| 0 <= j < ks.len() && ks[j] == k;
                    if j < i {
                        assert(self.keys@[j] == k);
                    } else {
                        assert(ks[j] != key);
                        assert(self.keys@[j - 1] == k);
                    }
                }
                assert forall|k: u64| self.keys@.contains(k)
                    implies #[trigger] self.inner@.contains_key(k) by {
                    let j = choose|j: int| 0 <= j < self.keys@.len() && self.keys@[j] == k;
                    if j < i {
                        assert(ks[j] == k);
                    } else {
                        assert(ks[j + 1] == k);
                    }
                }
                assert forall|k: u64|
                    k != key implies (#[trigger] self.keys@.contains(k) <==> ks.contains(k)) by {
                    if self.keys@.contains(k) {
                        assert(self.inner@.contains_key(k));
                        assert(old(self).inner@.contains_key(k));
                    }
                    if ks.contains(k) {
                        assert(old(self).inner@.contains_key(k));
                        assert(self.inner@.contains_key(k));
                    }
                }
                assert(!self.keys@.contains(key)) by {
                    if self.keys@.contains(key) {
                        let j = choose|j: int|
                            0 <= j < self.keys@.len() && self.keys@[j] == key;
                        if j < i {
                            assert(ks[j] == key);
                        } else {
                            assert(ks[j + 1] == key);
                        }
                    }
                }
            }
        }
        r
    }

    /// Return a fresh identifier, strictly greater than every identifier
    /// returned before.
    pub fn generate_id(&mut self) -> (r: u64)
        requires
            old(self).wf(),
            old(self).next() < u64::MAX,
        ensures
            final(self).wf(),
            r == old(self).next(),
            final(self).next() == old(self).next() + 1,
            final(self).map() == old(self).map(),
            final(self).key_list() == old(self).key_list(),
    {
        let id = self.next_id;
        self.next_id = self.next_id + 1;
        id
    }

    /// The identifier the next `generate_id` call will return, without
    /// advancing the counter.
    pub fn peek_next_id(&self) -> (r: u64)
        ensures
            r == self.next(),
    {
        self.next_id
    }

    /// No key appears in the key list twice.
    pub proof fn lemma_keys_distinct(&self)
        requires
            self.wf(),
        ensures
            forall|i: int, j: int|
                0 <= i < j < self.key_list().len() ==> self.key_list()[i] != self.key_list()[j],
    {
    }

    /// Every stored key appears in the key list.
    pub proof fn lemma_keys_complete(&self, k: u64)
        requires
            self.wf(),
            self.map().contains_key(k),
        ensures
            self.key_list().contains(k),
    {
    }

    /// Every key in the key list is stored.
    pub proof fn lemma_keys_sound(&self, k: u64)
        requires
            self.wf(),
            self.key_list().contains(k),
        ensures
            self.map().contains_key(k),
    {
    }

    /// The live keys, in order of their most recent insertion. as a fresh vector.
    pub fn keys_snapshot(&self) -> (r: Vec<u64>)
        ensures
            r@ == self.key_list(),
    {
        let mut out: Vec<u64> = Vec::new();
        let mut i: usize = 0;
        while i < self.keys.len()
            invariant
                0 <= i <= self.keys@.len(),
                out@ == self.keys@.take(i as int),
            decreases self.keys@.len() - i,
        {
            out.push(self.keys[i]);
            i = i + 1;
            proof {
                assert(self.keys@.take(i as int) =~= self.keys@.take(i - 1).push(
                    self.keys@[i - 1],
                ));
            }
        }
        proof {
            assert(self.keys@.take(i as int) =~= self.keys@);
        }
        out
    }
}

} // verus!
