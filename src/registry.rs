//! Registries of pending requests, each entry holding the channel that the
//! reply to the request is delivered on.
use crate::ids::{CorrelationKey, MessageId, QueryKey};
use vstd::prelude::*;

verus! {

/// Pending requests keyed by `K`, each with a delivery channel `S`.
#[verifier::reject_recursive_types(K)]
pub struct Registry<K, S> {
    keys: Vec<K>,
    senders: Vec<S>,
    entries: Ghost<Map<K, S>>,
}

/// Pending queries, keyed by the elder asked and the message id.
pub type PendingQueries<S> = Registry<QueryKey, S>;

/// Pending transfer validations, keyed by message id.
pub type PendingTransfers<S> = Registry<MessageId, S>;

impl<K: CorrelationKey, S> Registry<K, S> {
    /// The pending entries.
    pub closed spec fn view(&self) -> Map<K, S> {
        self.entries@
    }

    pub closed spec fn wf(&self) -> bool {
        let ks = self.keys@;
        let m = self.entries@;
        &&& self.senders@.len() == ks.len()
        &&& forall|i: int| #![trigger ks[i]] 0 <= i < ks.len() ==> m.contains_key(ks[i])
            && m[ks[i]] == self.senders@[i]
        &&& forall|k: K| #[trigger] m.contains_key(k) ==> exists|i: int| 0 <= i < ks.len() && ks[i] == k
        &&& forall|i: int, j: int| 0 <= i < j < ks.len() ==> ks[i] != ks[j]
    }

    /// An empty registry.
    pub fn new() -> (r: Self)
        ensures
            r.wf(),
            r@ == Map::<K, S>::empty(),
    {
        Registry { keys: Vec::new(), senders: Vec::new(), entries: Ghost(Map::empty()) }
    }

    /// The number of pending entries.
    pub fn len(&self) -> (r: usize)
        requires
            self.wf(),
        ensures
            r == self@.dom().len(),
    {
        proof {
            self.lemma_dom_is_keys();
        }
        self.keys.len()
    }

    proof fn lemma_dom_is_keys(&self)
        requires
            self.wf(),
        ensures
            self@.dom() == self.keys@.to_set(),
            self@.dom().len() == self.keys@.len(),
    {
        assert(self@.dom() =~= self.keys@.to_set());
        self.keys@.unique_seq_to_set();
    }

    fn position(&self, key: &K) -> (r: Option<usize>)
        requires
            self.wf(),
        ensures
            match r {
                Some(i) => i < self.keys@.len() && self.keys@[i as int] == *key,
                None => !self@.contains_key(*key),
            },
    {
        let mut i: usize = 0;
        while i < self.keys.len()
            invariant
                self.wf(),
                i <= self.keys@.len(),
                forall|j: int| 0 <= j < i ==> self.keys@[j] != *key,
            decreases self.keys@.len() - i,
        {
            if self.keys[i].same_key(key) {
                return Some(i);
            }
            i = i + 1;
        }
        None
    }

    /// Whether an entry for `key` is pending.
    pub fn contains(&self, key: &K) -> (r: bool)
        requires
            self.wf(),
        ensures
            r == self@.contains_key(*key),
    {
        self.position(key).is_some()
    }

    /// The channel pending under `key`, if any.
    pub fn get(&self, key: &K) -> (r: Option<&S>)
        requires
            self.wf(),
        ensures
            match r {
                Some(s) => self@.contains_key(*key) && *s == self@[*key],
                None => !self@.contains_key(*key),
            },
    {
        match self.position(key) {
            Some(i) => Some(&self.senders[i]),
            None => None,
        }
    }

    /// Registers `sender` under `key`, replacing any entry already there.
    pub fn insert(&mut self, key: K, sender: S)
        requires
            old(self).wf(),
        ensures
            final(self).wf(),
            final(self)@ == old(self)@.insert(key, sender),
    {
        let ghost m = self.entries@.insert(key, sender);
        match self.position(&key) {
            Some(i) => {
                self.senders.set(i, sender);
            },
            None => {
                self.keys.push(key);
                self.senders.push(sender);
            },
        }
        self.entries = Ghost(m);
        assert forall|k: K| #[trigger] m.contains_key(k) implies exists|i: int|
            0 <= i < self.keys@.len() && self.keys@[i] == k by {
            if k == key {
                if self.keys@.last() == key {
                    assert(self.keys@[self.keys@.len() - 1] == k);
                }
            } else {
                let i = choose|i: int| 0 <= i < old(self).keys@.len() && old(self).keys@[i] == k;
                assert(self.keys@[i] == k);
            }
        }
    }

    /// Removes and returns the entry under `key`; absent keys are tolerated.
    pub fn remove(&mut self, key: &K) -> (r: Option<S>)
        requires
            old(self).wf(),
        ensures
            final(self).wf(),
            final(self)@ == old(self)@.remove(*key),
            match r {
                Some(s) => old(self)@.contains_key(*key) && s == old(self)@[*key],
                None => !old(self)@.contains_key(*key),
            },
    {
        match self.position(key) {
            Some(i) => {
                let ghost m = self.entries@.remove(*key);
                let ghost old_keys = self.keys@;
                self.keys.remove(i);
                let s = self.senders.remove(i);
                self.entries = Ghost(m);
                assert forall|j: int| #![trigger self.keys@[j]] 0 <= j < self.keys@.len()
                    implies m.contains_key(self.keys@[j]) && m[self.keys@[j]] == self.senders@[j] by {
                    if j >= i {
                        assert(self.keys@[j] == old_keys[j + 1]);
                    }
                }
                assert forall|k: K| #[trigger] m.contains_key(k) implies exists|j: int|
                    0 <= j < self.keys@.len() && self.keys@[j] == k by {
                    let j = choose|j: int| 0 <= j < old_keys.len() && old_keys[j] == k;
                    if j < i {
                        assert(self.keys@[j] == k);
                    } else {
                        assert(self.keys@[j - 1] == k);
                    }
                }
                Some(s)
            },
            None => {
                assert(self.entries@.remove(*key) =~= self.entries@);
                None
            },
        }
    }
}

} // verus!
