//! The byte store that addresses are resolved against.
use vstd::prelude::*;
use std::collections::HashMap;

verus! {

broadcast use vstd::std_specs::hash::group_hash_axioms;

/// Model of the byte store: the blobs by 32-bit hash, and the table that maps 64-bit
/// hashes to 32-bit ones.
pub ghost struct StoreModel {
    pub blobs: Map<u32, Seq<u8>>,
    pub table: Map<u64, u32>,
}

/// The bytes of hash-addressed records, held in memory, with the fallback table of
/// 64-bit hashes.
pub struct TagStore {
    blobs: HashMap<u32, Vec<u8>>,
    hash64_table: HashMap<u64, u32>,
}

impl View for TagStore {
    type V = StoreModel;

    closed spec fn view(&self) -> StoreModel {
        StoreModel { blobs: self.blobs@.map_values(|b: Vec<u8>| b@), table: self.hash64_table@ }
    }
}

impl TagStore {
    /// A store that holds nothing.
    pub fn new() -> (r: TagStore)
        ensures
            r@.blobs == Map::<u32, Seq<u8>>::empty(),
            r@.table == Map::<u64, u32>::empty(),
    {
        let r = TagStore { blobs: HashMap::new(), hash64_table: HashMap::new() };
        assert(r@.blobs =~= Map::<u32, Seq<u8>>::empty());
        r
    }

    /// Stores the bytes of the record with 32-bit hash `hash`.
    pub fn insert_blob(&mut self, hash: u32, bytes: Vec<u8>)
        ensures
            final(self)@.blobs == old(self)@.blobs.insert(hash, bytes@),
            final(self)@.table == old(self)@.table,
    {
        let ghost b = bytes@;
        self.blobs.insert(hash, bytes);
        assert(self@.blobs =~= old(self)@.blobs.insert(hash, b));
    }

    /// Records that the 64-bit hash `hash64` stands for the 32-bit hash `hash32`.
    pub fn insert_hash64(&mut self, hash64: u64, hash32: u32)
        ensures
            final(self)@.blobs == old(self)@.blobs,
            final(self)@.table == old(self)@.table.insert(hash64, hash32),
    {
        self.hash64_table.insert(hash64, hash32);
    }

    /// The bytes stored for `hash`, or `None` where the store has none.
    pub fn read_by_hash32(&self, hash: u32) -> (r: Option<&Vec<u8>>)
        ensures
            match r {
                Some(b) => self@.blobs.contains_key(hash) && b@ == self@.blobs[hash],
                None => !self@.blobs.contains_key(hash),
            },
    {
        self.blobs.get(&hash)
    }

    /// The 32-bit hash that `hash` stands for, or `None` where the table has no entry.
    pub fn resolve_hash64_to_hash32(&self, hash: u64) -> (r: Option<u32>)
        ensures
            match r {
                Some(h) => self@.table.contains_key(hash) && h == self@.table[hash],
                None => !self@.table.contains_key(hash),
            },
    {
        match self.hash64_table.get(&hash) {
            Some(h) => Some(*h),
            None => None,
        }
    }
}

} // verus!
