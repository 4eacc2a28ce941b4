//! Addresses of records: a 32-bit hash, or a 64-bit hash resolved through a table.
use vstd::prelude::*;
use crate::store::TagStore;
use crate::wire::{lemma_byte_limit_8, read_uint, uint_at, Endian};

verus! {

/// Address of a record in the store: a direct 32-bit hash, or a 64-bit hash that the
/// store's fallback table maps to a 32-bit one.
#[derive(Debug, Clone, Copy, PartialEq, Eq, Structural, Hash)]
pub enum WideHash {
    Hash32(u32),
    Hash64(u64),
}

/// Bytes that a narrow address takes on the wire.
pub const NARROW_ADDRESS_SIZE: usize = 4;

/// Bytes that a wide address takes on the wire: the 32-bit candidate, the flag that
/// selects it, and the 64-bit candidate.
pub const WIDE_ADDRESS_SIZE: usize = 16;

impl WideHash {
    /// The sentinel values 0 and all-ones denote "no record".
    pub open spec fn is_absent(self) -> bool {
        match self {
            WideHash::Hash32(h) => h == 0 || h == u32::MAX,
            WideHash::Hash64(h) => h == 0 || h == u64::MAX,
        }
    }

    pub open spec fn key_spec(self) -> u64 {
        match self {
            WideHash::Hash32(h) => h as u64,
            WideHash::Hash64(h) => h,
        }
    }

    /// Key that is safe to use for caching and lookup tables.
    pub fn key(&self) -> (r: u64)
        ensures
            r == self.key_spec(),
    {
        match self {
            WideHash::Hash32(h) => *h as u64,
            WideHash::Hash64(h) => *h,
        }
    }

    /// Whether the address names a record, that is, is not a sentinel.
    pub fn is_some(&self) -> (r: bool)
        ensures
            r == !self.is_absent(),
    {
        match self {
            WideHash::Hash32(h) => *h != 0 && *h != u32::MAX,
            WideHash::Hash64(h) => *h != 0 && *h != u64::MAX,
        }
    }
}

impl WideHash {
    /// The present 32-bit hash this address stands for: itself, or, for a 64-bit hash,
    /// its entry in the store's fallback table. An absent address, a 64-bit hash without
    /// an entry, and an entry that is itself absent give `None`; an absent address is
    /// answered without consulting the table.
    pub fn hash32_checked(&self, store: &TagStore) -> (r: Option<u32>)
        ensures
            match *self {
                WideHash::Hash32(h) => r == if self.is_absent() { None } else { Some(h) },
                WideHash::Hash64(h) => r == if self.is_absent() {
                    None
                } else if store@.table.contains_key(h) && !WideHash::Hash32(store@.table[h]).is_absent() {
                    Some(store@.table[h])
                } else {
                    None
                },
            },
    {
        if !self.is_some() {
            return None;
        }
        match self {
            WideHash::Hash32(h) => Some(*h),
            WideHash::Hash64(h) => match store.resolve_hash64_to_hash32(*h) {
                Some(h32) => if WideHash::Hash32(h32).is_some() {
                    Some(h32)
                } else {
                    None
                },
                None => None,
            },
        }
    }

    /// As `hash32_checked`, with the absent hash all-ones where there is none.
    pub fn hash32(&self, store: &TagStore) -> (r: u32)
        ensures
            r == match *self {
                WideHash::Hash32(h) => if self.is_absent() { u32::MAX } else { h },
                WideHash::Hash64(h) => if self.is_absent() {
                    u32::MAX
                } else if store@.table.contains_key(h) && !WideHash::Hash32(store@.table[h]).is_absent() {
                    store@.table[h]
                } else {
                    u32::MAX
                },
            },
    {
        match self.hash32_checked(store) {
            Some(h) => h,
            None => u32::MAX,
        }
    }
}

/// Bytes that an address takes on the wire.
pub open spec fn address_size(wide: bool) -> nat {
    if wide {
        WIDE_ADDRESS_SIZE as nat
    } else {
        NARROW_ADDRESS_SIZE as nat
    }
}

/// The address stored at `pos`: four bytes of hash, or, wide, a 32-bit candidate, a
/// flag (non-zero selects the 32-bit candidate) and a 64-bit candidate.
pub open spec fn address_at(blob: Seq<u8>, pos: int, wide: bool, endian: Endian) -> Option<WideHash> {
    if !wide {
        match uint_at(blob, pos, 4, endian) {
            Some(h) => Some(WideHash::Hash32(h as u32)),
            None => None,
        }
    } else {
        let h32 = uint_at(blob, pos, 4, endian);
        let flag = uint_at(blob, pos + 4, 4, endian);
        let h64 = uint_at(blob, pos + 8, 8, endian);
        if h32 is None || flag is None || h64 is None {
            None
        } else if flag->0 != 0 {
            Some(WideHash::Hash32(h32->0 as u32))
        } else {
            Some(WideHash::Hash64(h64->0 as u64))
        }
    }
}

/// Reads the address stored at `pos`.
pub fn read_address(blob: &[u8], pos: usize, wide: bool, endian: Endian) -> (r: Option<WideHash>)
    ensures
        r == address_at(blob@, pos as int, wide, endian),
{
    proof {
        lemma_byte_limit_8();
    }
    if !wide {
        match read_uint(blob, pos, 4, endian) {
            Some(h) => {
                assert(h < 0x1_0000_0000);
                Some(WideHash::Hash32(h as u32))
            },
            None => None,
        }
    } else {
        if blob.len() < 16 || pos > blob.len() - 16 {
            assert(uint_at(blob@, pos + 8, 8, endian) is None);
            return None;
        }
        let h32 = read_uint(blob, pos, 4, endian);
        let flag = read_uint(blob, pos + 4, 4, endian);
        let h64 = read_uint(blob, pos + 8, 8, endian);
        match (h32, flag, h64) {
            (Some(h32), Some(flag), Some(h64)) => if flag != 0 {
                assert(h32 < 0x1_0000_0000);
                Some(WideHash::Hash32(h32 as u32))
            } else {
                Some(WideHash::Hash64(h64))
            },
            _ => None,
        }
    }
}

} // verus!
