//! A vector of values that can also be reached by key.
use vstd::prelude::*;
use std::collections::HashMap;
use std::hash::Hash;
use vstd::std_specs::hash::obeys_key_model;
use vstd::std_specs::iter::IteratorSpec;

verus! {

broadcast use vstd::std_specs::hash::group_hash_axioms;

/// Values kept in insertion order, each reachable by its position and by the key it was
/// inserted under.
pub struct IndexableHashMap<K, V> {
    hash_to_index: HashMap<K, usize>,
    values: Vec<V>,
}

impl<K, V> IndexableHashMap<K, V> {
    /// Position of the value last inserted under each key.
    pub closed spec fn indices(&self) -> Map<K, usize> {
        self.hash_to_index@
    }

    /// The values, in insertion order.
    pub closed spec fn entries(&self) -> Seq<V> {
        self.values@
    }

    /// Every key points at a value.
    pub open spec fn wf(&self) -> bool {
        forall|k: K| #[trigger] self.indices().contains_key(k) ==> self.indices()[k] < self.entries().len()
    }

    /// The value at position `index`.
    pub fn get(&self, index: usize) -> (r: Option<&V>)
        ensures
            index < self.entries().len() ==> r == Some(&self.entries()[index as int]),
            index >= self.entries().len() ==> r is None,
    {
        if index < self.values.len() {
            Some(&self.values[index])
        } else {
            None
        }
    }

    /// The keys, each once, in no particular order.
    pub fn keys(&self) -> (r: Vec<&K>)
        requires
            obeys_key_model::<K>(),
        ensures
            r@.unref().to_set() == self.indices().dom(),
            r@.unref().no_duplicates(),
    {
        let ghost all = vstd::std_specs::hash::spec_keys_iter(&self.hash_to_index).remaining();
        let mut out: Vec<&K> = Vec::new();
        for k in it: self.hash_to_index.keys()
            invariant
                it.seq() == all,
                out@ == it.seq().take(it.index() as int),
            ensures
                out@ == all,
        {
            out.push(k);
        }
        out
    }

    /// The values, in insertion order.
    pub fn values(&self) -> (r: &Vec<V>)
        ensures
            r@ == self.entries(),
    {
        &self.values
    }

    /// An empty map.
    pub fn new() -> (r: Self)
        ensures
            r.wf(),
            r.indices() == Map::<K, usize>::empty(),
            r.entries() == Seq::<V>::empty(),
    {
        let r = IndexableHashMap { hash_to_index: HashMap::new(), values: Vec::new() };
        assert(r.indices() =~= Map::<K, usize>::empty());
        r
    }
}

impl<K: Eq + Hash, V> IndexableHashMap<K, V> {
    /// The value inserted last under `hash`.
    pub fn lookup_hash(&self, hash: &K) -> (r: Option<&V>)
        requires
            self.wf(),
            obeys_key_model::<K>(),
        ensures
            self.indices().contains_key(*hash) ==> r == Some(&self.entries()[self.indices()[*hash] as int]),
            !self.indices().contains_key(*hash) ==> r is None,
    {
        match self.hash_to_index.get(hash) {
            Some(index) => self.values.get(*index),
            None => None,
        }
    }

    /// Appends `v` and points `k` at it; returns the value just stored.
    pub fn insert(&mut self, k: K, v: V) -> (r: Option<&V>)
        requires
            old(self).wf(),
            obeys_key_model::<K>(),
        ensures
            final(self).wf(),
            final(self).entries() == old(self).entries().push(v),
            final(self).indices() == old(self).indices().insert(k, old(self).entries().len() as usize),
            r == Some(&v),
    {
        self.values.push(v);
        self.hash_to_index.insert(k, self.values.len() - 1);
        assert forall|key: K| #[trigger] self.indices().contains_key(key) implies self.indices()[key]
            < self.entries().len() by {
            if key != k {
                assert(old(self).indices().contains_key(key));
            }
        }
        self.values.last()
    }
}

} // verus!
