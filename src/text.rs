//! Localized strings, assembled from their parts per language.
use vstd::prelude::*;
use std::collections::HashMap;
use crate::address::WideHash;
use crate::decoder::{lookup, lookup_spec, scaled_within, DecodeError, Lookup};
use crate::store::{StoreModel, TagStore};
use crate::wire::{lemma_byte_limit_8, read_uint, uint_at, Endian};
use vstd::string::StringExecFns;

verus! {

broadcast use vstd::std_specs::hash::group_hash_axioms;

/// Substitution hash of a string part that holds literal text.
pub const FNV1_PRIME: u32 = 0x811c9dc5;

/// Bytes of one string part record.
pub const STRING_PART_SIZE: usize = 0x20;

/// Bytes of one string combination record.
pub const STRING_COMBINATION_SIZE: usize = 0x10;

/// Where the sequence of string combinations sits in a language's string data.
pub const COMBINATIONS_FIELD: usize = 0x38;

/// Where the sequence of meaning hashes sits in a language table.
pub const HASHES_FIELD: usize = 0x8;

/// Where the per-language data hashes start in a language table.
pub const LANGUAGES_FIELD: usize = 0x18;

/// The text that lossy UTF-8 decoding gives for `bytes`.
pub uninterp spec fn utf8_lossy(bytes: Seq<u8>) -> Seq<char>;

/// Relies on `String::from_utf8_lossy`: the text depends on the bytes alone.
#[verifier::external_body]
fn decode_utf8_lossy(bytes: &[u8]) -> (r: String)
    ensures
        r@ == utf8_lossy(bytes@),
{
    String::from_utf8_lossy(bytes).into_owned()
}

/// Relies on `String::push`: appends `c` to `s`.
#[verifier::external_body]
fn append_char(s: &mut String, c: char)
    ensures
        final(s)@ == old(s)@.push(c),
{
    s.push(c)
}

/// Upper-case hexadecimal digit of `n` (below 16).
pub open spec fn hex_digit(n: nat) -> char {
    if n < 10 {
        ((n + 48) as u8) as char
    } else {
        ((n + 55) as u8) as char
    }
}

/// The last `n` hexadecimal digits of `h`, most significant first.
pub open spec fn hex_digits(h: nat, n: nat) -> Seq<char>
    decreases n,
{
    if n == 0 {
        Seq::empty()
    } else {
        hex_digits(h / 16, (n - 1) as nat).push(hex_digit(h % 16))
    }
}

/// The placeholder that stands for a substitution: `<`, eight hexadecimal digits, `>`.
pub open spec fn placeholder(h: u32) -> Seq<char> {
    seq!['<'] + hex_digits(h as nat, 8) + seq!['>']
}

fn push_hex(s: &mut String, h: u32, n: u32)
    requires
        n <= 8,
    ensures
        final(s)@ == old(s)@ + hex_digits(h as nat, n as nat),
    decreases n,
{
    if n == 0 {
        assert(old(s)@ + hex_digits(h as nat, 0) =~= old(s)@);
        return;
    }
    push_hex(s, h / 16, n - 1);
    let d = h % 16;
    let c = if d < 10 { ((d + 48) as u8) as char } else { ((d + 55) as u8) as char };
    append_char(s, c);
    assert(s@ =~= old(s)@ + hex_digits(h as nat, n as nat));
}

/// Absolute position named by the relative offset stored at `q`.
pub open spec fn pointer_at(blob: Seq<u8>, q: int, e: Endian) -> Option<int> {
    match uint_at(blob, q, 8, e) {
        Some(v) => Some(q + v),
        None => None,
    }
}

/// Number of parts of a combination: a signed count, where a negative one means none.
pub open spec fn part_count(bits: nat) -> nat {
    if bits < 0x8000_0000_0000_0000 {
        bits
    } else {
        0
    }
}

/// The text of the string part at `pos`: a placeholder for a substitution, else the
/// literal bytes that its pointer and byte length name, decoded lossily.
pub open spec fn part_spec(blob: Seq<u8>, e: Endian, pos: int) -> Result<Seq<char>, DecodeError> {
    if pos < 0 || pos + STRING_PART_SIZE > blob.len() {
        Err(DecodeError::UnexpectedEndOfData)
    } else {
        let hash = uint_at(blob, pos + 0x10, 4, e)->0;
        let len = uint_at(blob, pos + 0x14, 2, e)->0;
        let data = pointer_at(blob, pos + 8, e)->0;
        if hash != FNV1_PRIME {
            Ok(placeholder(hash as u32))
        } else if data + len > blob.len() {
            Err(DecodeError::UnexpectedEndOfData)
        } else {
            Ok(utf8_lossy(blob.subrange(data, data + len)))
        }
    }
}

/// The first `k` parts starting at `first`, concatenated, or the first error.
pub open spec fn parts_spec(blob: Seq<u8>, e: Endian, first: int, k: nat) -> Result<Seq<char>, DecodeError>
    decreases k,
{
    if k == 0 {
        Ok(Seq::empty())
    } else {
        match parts_spec(blob, e, first, (k - 1) as nat) {
            Err(x) => Err(x),
            Ok(s) => match part_spec(blob, e, first + (k - 1) * STRING_PART_SIZE) {
                Err(x) => Err(x),
                Ok(t) => Ok(s + t),
            },
        }
    }
}

/// The string that the combination at `pos` assembles.
pub open spec fn combination_spec(blob: Seq<u8>, e: Endian, pos: int) -> Result<Seq<char>, DecodeError> {
    let first = pointer_at(blob, pos, e);
    let bits = uint_at(blob, pos + 8, 8, e);
    if first is None || bits is None {
        Err(DecodeError::UnexpectedEndOfData)
    } else {
        parts_spec(blob, e, first->0, part_count(bits->0))
    }
}

/// Reads the relative offset at `q` and returns the position it names, where that fits
/// in a `usize`.
fn read_pointer(blob: &[u8], q: usize, e: Endian) -> (r: Option<usize>)
    ensures
        match r {
            Some(a) => pointer_at(blob@, q as int, e) == Some(a as int),
            None => pointer_at(blob@, q as int, e) is None || pointer_at(blob@, q as int, e)->0 > usize::MAX,
        },
{
    match read_uint(blob, q, 8, e) {
        Some(v) => if v > (usize::MAX - q) as u64 {
            None
        } else {
            Some(q + v as usize)
        },
        None => None,
    }
}

proof fn lemma_parts_err(blob: Seq<u8>, e: Endian, first: int, k: nat, n: nat)
    requires
        k <= n,
        parts_spec(blob, e, first, k) is Err,
    ensures
        parts_spec(blob, e, first, n) == parts_spec(blob, e, first, k),
    decreases n,
{
    if k < n {
        lemma_parts_err(blob, e, first, k, (n - 1) as nat);
    }
}

/// Appends the text of the string part at `pos` to `s`.
fn append_part(s: &mut String, blob: &[u8], e: Endian, pos: usize) -> (r: Result<(), DecodeError>)
    ensures
        match r {
            Ok(_) => part_spec(blob@, e, pos as int) is Ok
                && final(s)@ == old(s)@ + part_spec(blob@, e, pos as int)->Ok_0,
            Err(x) => part_spec(blob@, e, pos as int) == Err::<Seq<char>, DecodeError>(x),
        },
{
    let len = blob.len();
    if pos > len || len - pos < STRING_PART_SIZE {
        return Err(DecodeError::UnexpectedEndOfData);
    }
    proof {
        lemma_byte_limit_8();
    }
    let hash = read_uint(blob, pos + 0x10, 4, e).unwrap();
    if hash != FNV1_PRIME as u64 {
        append_char(s, '<');
        push_hex(s, hash as u32, 8);
        append_char(s, '>');
        assert(s@ =~= old(s)@ + placeholder(hash as u32));
        return Ok(());
    }
    let n = read_uint(blob, pos + 0x14, 2, e).unwrap();
    match read_pointer(blob, pos + 8, e) {
        Some(data) => {
            if data > len || (n as usize) > len - data {
                return Err(DecodeError::UnexpectedEndOfData);
            }
            let bytes = decode_utf8_lossy(&blob[data..data + n as usize]);
            s.append(bytes.as_str());
            Ok(())
        },
        None => Err(DecodeError::UnexpectedEndOfData),
    }
}

/// Assembles the string of the combination at `pos`: its parts in order, with no
/// separator.
pub fn assemble_combination(blob: &[u8], e: Endian, pos: usize) -> (r: Result<String, DecodeError>)
    ensures
        match r {
            Ok(s) => combination_spec(blob@, e, pos as int) == Ok::<Seq<char>, DecodeError>(s@),
            Err(x) => combination_spec(blob@, e, pos as int) == Err::<Seq<char>, DecodeError>(x),
        },
{
    let len = blob.len();
    if pos > len || len - pos < STRING_COMBINATION_SIZE {
        return Err(DecodeError::UnexpectedEndOfData);
    }
    let bits = read_uint(blob, pos + 8, 8, e).unwrap();
    let count: u64 = if bits < 0x8000_0000_0000_0000 { bits } else { 0 };
    let mut s = String::new();
    let first = read_pointer(blob, pos, e);
    let ghost gfirst = pointer_at(blob@, pos as int, e)->0;
    assert(pointer_at(blob@, pos as int, e) is Some);
    assert(s@ =~= Seq::<char>::empty());
    let mut k: u64 = 0;
    while k < count
        invariant
            k <= count,
            count == part_count(bits as nat),
            len == blob@.len(),
            uint_at(blob@, pos + 8, 8, e) == Some(bits as nat),
            pointer_at(blob@, pos as int, e) == Some(gfirst),
            first is Some ==> first->0 == gfirst,
            first is None ==> gfirst > usize::MAX,
            parts_spec(blob@, e, gfirst, k as nat) == Ok::<Seq<char>, DecodeError>(s@),
        decreases count - k,
    {
        let ghost at = gfirst + k * STRING_PART_SIZE;
        assert(at >= gfirst) by (nonlinear_arith)
            requires
                at == gfirst + k * STRING_PART_SIZE,
                k >= 0,
        ;
        let mut step: Option<usize> = None;
        match first {
            Some(f) => if f <= len {
                if k <= ((len - f) / STRING_PART_SIZE) as u64 {
                    assert(k * STRING_PART_SIZE <= len - f) by (nonlinear_arith)
                        requires
                            k <= (len - f) / 32,
                            len - f >= 0,
                    ;
                    step = Some(f + (k as usize) * STRING_PART_SIZE);
                } else {
                    assert(k * STRING_PART_SIZE > len - f) by (nonlinear_arith)
                        requires
                            k > (len - f) / 32,
                            len - f >= 0,
                    ;
                }
            },
            None => {},
        }
        let r = match step {
            Some(p) => {
                assert(p == at);
                append_part(&mut s, blob, e, p)
            },
            None => {
                assert(at > len);
                Err(DecodeError::UnexpectedEndOfData)
            },
        };
        match r {
            Err(x) => {
                proof {
                    lemma_parts_err(blob@, e, gfirst, (k + 1) as nat, count as nat);
                }
                return Err(x);
            },
            Ok(_) => {},
        }
        k = k + 1;
    }
    Ok(s)
}

/// Meaning hash to string for the first `k` combinations, the combination of index `i`
/// paired with `hashes[i]`; a later equal hash replaces an earlier one.
pub open spec fn entries_spec(blob: Seq<u8>, e: Endian, start: int, hashes: Seq<u32>, k: nat) -> Result<Map<u32, Seq<char>>, DecodeError>
    decreases k,
{
    if k == 0 || k > hashes.len() {
        Ok(Map::empty())
    } else {
        match entries_spec(blob, e, start, hashes, (k - 1) as nat) {
            Err(x) => Err(x),
            Ok(m) => match combination_spec(blob, e, start + (k - 1) * STRING_COMBINATION_SIZE) {
                Err(x) => Err(x),
                Ok(s) => Ok(m.insert(hashes[k - 1], s)),
            },
        }
    }
}

/// The strings of one language's string data `blob`, keyed by the parallel `hashes`.
pub open spec fn strings_spec(blob: Seq<u8>, e: Endian, hashes: Seq<u32>) -> Result<Map<u32, Seq<char>>, DecodeError> {
    let count = uint_at(blob, COMBINATIONS_FIELD as int, 8, e);
    let off = uint_at(blob, COMBINATIONS_FIELD + 8, 8, e);
    if count is None || off is None {
        Err(DecodeError::UnexpectedEndOfData)
    } else if count->0 != hashes.len() {
        Err(DecodeError::TableSizeMismatch(hashes.len() as u64, count->0 as u64))
    } else {
        entries_spec(blob, e, COMBINATIONS_FIELD + 8 + off->0, hashes, hashes.len())
    }
}

pub open spec fn strings_view(m: HashMap<u32, String>) -> Map<u32, Seq<char>> {
    m@.map_values(|s: String| s@)
}

proof fn lemma_entries_err(blob: Seq<u8>, e: Endian, start: int, hashes: Seq<u32>, k: nat, n: nat)
    requires
        k <= n <= hashes.len(),
        entries_spec(blob, e, start, hashes, k) is Err,
    ensures
        entries_spec(blob, e, start, hashes, n) == entries_spec(blob, e, start, hashes, k),
    decreases n,
{
    if k < n {
        lemma_entries_err(blob, e, start, hashes, k, (n - 1) as nat);
    }
}

/// Position `first + k * size` where it lies within `len`, else `None`.
pub(crate) fn position_within(first: usize, k: u64, size: usize, len: usize) -> (r: Option<usize>)
    ensures
        first + k * size <= len ==> r == Some((first + k * size) as usize),
        first + k * size > len ==> r is None,
{
    assert(k * size >= 0) by (nonlinear_arith)
        requires
            k >= 0,
            size >= 0,
    ;
    if first > len {
        return None;
    }
    match scaled_within(k, size, len - first) {
        Some(d) => Some(first + d),
        None => None,
    }
}

/// Assembles every string of one language's string data `blob`: the combination of
/// index `i` gives the string of `hashes[i]`.
pub fn assemble_strings(blob: &[u8], e: Endian, hashes: &Vec<u32>) -> (r: Result<HashMap<u32, String>, DecodeError>)
    ensures
        match r {
            Ok(m) => strings_spec(blob@, e, hashes@) == Ok::<Map<u32, Seq<char>>, DecodeError>(strings_view(m)),
            Err(x) => strings_spec(blob@, e, hashes@) == Err::<Map<u32, Seq<char>>, DecodeError>(x),
        },
{
    let len = blob.len();
    let count = read_uint(blob, COMBINATIONS_FIELD, 8, e);
    let off = read_uint(blob, COMBINATIONS_FIELD + 8, 8, e);
    if count.is_none() || off.is_none() {
        return Err(DecodeError::UnexpectedEndOfData);
    }
    let count = count.unwrap();
    let off = off.unwrap();
    if count != hashes.len() as u64 {
        return Err(DecodeError::TableSizeMismatch(hashes.len() as u64, count));
    }
    let ghost start = COMBINATIONS_FIELD + 8 + off;
    let mut first: Option<usize> = None;
    if off <= (usize::MAX - (COMBINATIONS_FIELD + 8)) as u64 {
        first = Some(COMBINATIONS_FIELD + 8 + off as usize);
    }
    let mut m: HashMap<u32, String> = HashMap::new();
    assert(strings_view(m) =~= Map::<u32, Seq<char>>::empty());
    let mut k: usize = 0;
    while k < hashes.len()
        invariant
            k <= hashes@.len(),
            len == blob@.len(),
            uint_at(blob@, COMBINATIONS_FIELD as int, 8, e) == Some(hashes@.len()),
            uint_at(blob@, COMBINATIONS_FIELD + 8, 8, e) == Some(off as nat),
            start == COMBINATIONS_FIELD + 8 + off,
            first is Some ==> first->0 == start,
            first is None ==> start > usize::MAX,
            entries_spec(blob@, e, start, hashes@, k as nat) == Ok::<Map<u32, Seq<char>>, DecodeError>(strings_view(m)),
        decreases hashes@.len() - k,
    {
        let ghost at = start + k * STRING_COMBINATION_SIZE;
        assert(at >= start) by (nonlinear_arith)
            requires
                at == start + k * STRING_COMBINATION_SIZE,
                k >= 0,
        ;
        let step = match first {
            Some(f) => position_within(f, k as u64, STRING_COMBINATION_SIZE, len),
            None => None,
        };
        let r = match step {
            Some(p) => assemble_combination(blob, e, p),
            None => {
                assert(at > len);
                Err(DecodeError::UnexpectedEndOfData)
            },
        };
        match r {
            Err(x) => {
                proof {
                    lemma_entries_err(blob@, e, start, hashes@, (k + 1) as nat, hashes@.len());
                }
                return Err(x);
            },
            Ok(s) => {
                let ghost old_m = m;
                m.insert(hashes[k], s);
                assert(strings_view(m) =~= strings_view(old_m).insert(hashes@[k as int], s@));
            },
        }
        k = k + 1;
    }
    Ok(m)
}

/// A language of the localized strings, in the order of the language table.
#[derive(Debug, Clone, Copy, PartialEq, Eq, Structural, Hash, PartialOrd, Ord)]
pub enum Language {
    English,
    Japanese,
    German,
    French,
    Spanish,
    SpanishLatAm,
    Italian,
    Korean,
    TraditionalChinese,
    SimplifiedChinese,
    Portuguese,
    Polish,
    Russian,
}

/// Number of languages in a language table.
pub const LANGUAGE_COUNT: usize = 13;

impl Language {
    /// Position of the language in the language table.
    pub open spec fn index_spec(self) -> nat {
        match self {
            Language::English => 0,
            Language::Japanese => 1,
            Language::German => 2,
            Language::French => 3,
            Language::Spanish => 4,
            Language::SpanishLatAm => 5,
            Language::Italian => 6,
            Language::Korean => 7,
            Language::TraditionalChinese => 8,
            Language::SimplifiedChinese => 9,
            Language::Portuguese => 10,
            Language::Polish => 11,
            Language::Russian => 12,
        }
    }

    pub fn index(&self) -> (r: usize)
        ensures
            r == self.index_spec(),
            r < LANGUAGE_COUNT,
    {
        match self {
            Language::English => 0,
            Language::Japanese => 1,
            Language::German => 2,
            Language::French => 3,
            Language::Spanish => 4,
            Language::SpanishLatAm => 5,
            Language::Italian => 6,
            Language::Korean => 7,
            Language::TraditionalChinese => 8,
            Language::SimplifiedChinese => 9,
            Language::Portuguese => 10,
            Language::Polish => 11,
            Language::Russian => 12,
        }
    }

    /// The language at position `value` of the language table.
    pub fn from_repr(value: u16) -> (r: Option<Language>)
        ensures
            value < LANGUAGE_COUNT <==> r is Some,
            r matches Some(l) ==> l.index_spec() == value,
    {
        match value {
            0 => Some(Language::English),
            1 => Some(Language::Japanese),
            2 => Some(Language::German),
            3 => Some(Language::French),
            4 => Some(Language::Spanish),
            5 => Some(Language::SpanishLatAm),
            6 => Some(Language::Italian),
            7 => Some(Language::Korean),
            8 => Some(Language::TraditionalChinese),
            9 => Some(Language::SimplifiedChinese),
            10 => Some(Language::Portuguese),
            11 => Some(Language::Polish),
            12 => Some(Language::Russian),
            _ => None,
        }
    }
}

/// The first `k` 32-bit hashes of a sequence whose first element is at `start`.
pub open spec fn hashes_spec(blob: Seq<u8>, e: Endian, start: int, k: nat) -> Option<Seq<u32>>
    decreases k,
{
    if k == 0 {
        Some(Seq::empty())
    } else {
        match hashes_spec(blob, e, start, (k - 1) as nat) {
            None => None,
            Some(s) => match uint_at(blob, start + (k - 1) * 4, 4, e) {
                None => None,
                Some(h) => Some(s.push(h as u32)),
            },
        }
    }
}

/// The meaning hashes of a language table and the hash of `lang`'s string data.
pub open spec fn language_table_spec(table: Seq<u8>, e: Endian, lang: Language) -> Option<(Seq<u32>, u32)> {
    let count = uint_at(table, HASHES_FIELD as int, 8, e);
    let off = uint_at(table, HASHES_FIELD + 8, 8, e);
    let data = uint_at(table, LANGUAGES_FIELD + 4 * lang.index_spec(), 4, e);
    if count is None || off is None || data is None {
        None
    } else {
        match hashes_spec(table, e, HASHES_FIELD + 8 + off->0, count->0) {
            None => None,
            Some(hs) => Some((hs, data->0 as u32)),
        }
    }
}

/// The strings of `lang`: the language table at `addr` gives the meaning hashes and the
/// string data of each language, which pairs each hash with the combination of its index.
pub open spec fn load_language_spec(st: StoreModel, addr: WideHash, lang: Language, e: Endian) -> Result<Map<u32, Seq<char>>, DecodeError> {
    match lookup_spec(st.table, addr) {
        Lookup::Read(h) => if !st.blobs.contains_key(h) {
            Err(DecodeError::StoreMiss(WideHash::Hash32(h)))
        } else {
            match language_table_spec(st.blobs[h], e, lang) {
                None => Err(DecodeError::UnexpectedEndOfData),
                Some((hashes, data)) => match lookup_spec(st.table, WideHash::Hash32(data)) {
                    Lookup::Read(d) => if st.blobs.contains_key(d) {
                        strings_spec(st.blobs[d], e, hashes)
                    } else {
                        Err(DecodeError::StoreMiss(WideHash::Hash32(d)))
                    },
                    _ => Err(DecodeError::StoreMiss(WideHash::Hash32(data))),
                },
            }
        },
        _ => Err(DecodeError::StoreMiss(addr)),
    }
}

/// Reads the `count` 32-bit hashes of a sequence whose first element is at `start`.
fn read_hashes(blob: &[u8], e: Endian, first: Option<usize>, count: u64) -> (r: Option<Vec<u32>>)
    ensures
        forall|start: int|
            #![trigger hashes_spec(blob@, e, start, count as nat)]
            (first is Some ==> start == first->0) && (first is None ==> start > usize::MAX) ==> match r {
                Some(v) => hashes_spec(blob@, e, start, count as nat) == Some(v@),
                None => hashes_spec(blob@, e, start, count as nat) is None,
            },
{
    let len = blob.len();
    let mut v: Vec<u32> = Vec::new();
    let mut k: u64 = 0;
    while k < count
        invariant
            k <= count,
            len == blob@.len(),
            forall|start: int|
                #![trigger hashes_spec(blob@, e, start, k as nat)]
                (first is Some ==> start == first->0) && (first is None ==> start > usize::MAX)
                    ==> hashes_spec(blob@, e, start, k as nat) == Some(v@),
        decreases count - k,
    {
        let step = match first {
            Some(f) => position_within(f, k, 4, len),
            None => None,
        };
        let h = match step {
            Some(p) => read_uint(blob, p, 4, e),
            None => None,
        };
        match h {
            None => {
                assert forall|start: int|
                    (first is Some ==> start == first->0) && (first is None ==> start > usize::MAX)
                        implies #[trigger] hashes_spec(blob@, e, start, count as nat) is None by {
                    assert(start + k * 4 >= start) by (nonlinear_arith)
                        requires
                            k >= 0,
                    ;
                    assert(hashes_spec(blob@, e, start, (k + 1) as nat) is None);
                    lemma_hashes_none(blob@, e, start, (k + 1) as nat, count as nat);
                }
                return None;
            },
            Some(h) => {
                proof {
                    lemma_byte_limit_8();
                }
                v.push(h as u32);
                assert forall|start: int|
                    (first is Some ==> start == first->0) && (first is None ==> start > usize::MAX)
                        implies #[trigger] hashes_spec(blob@, e, start, (k + 1) as nat) == Some(v@) by {
                    assert(hashes_spec(blob@, e, start, k as nat) == Some(v@.drop_last()));
                    assert(v@.drop_last().push(h as u32) =~= v@);
                }
            },
        }
        k = k + 1;
    }
    Some(v)
}

proof fn lemma_hashes_none(blob: Seq<u8>, e: Endian, start: int, k: nat, n: nat)
    requires
        k <= n,
        hashes_spec(blob, e, start, k) is None,
    ensures
        hashes_spec(blob, e, start, n) is None,
    decreases n,
{
    if k < n {
        lemma_hashes_none(blob, e, start, k, (n - 1) as nat);
    }
}

/// Assembles the strings of `lang` from the language table at `addr`.
pub fn load_language(store: &TagStore, addr: WideHash, lang: Language, e: Endian) -> (r: Result<HashMap<u32, String>, DecodeError>)
    ensures
        match r {
            Ok(m) => load_language_spec(store@, addr, lang, e) == Ok::<Map<u32, Seq<char>>, DecodeError>(strings_view(m)),
            Err(x) => load_language_spec(store@, addr, lang, e) == Err::<Map<u32, Seq<char>>, DecodeError>(x),
        },
{
    let h = match lookup(store, addr) {
        Lookup::Read(h) => h,
        _ => {
            return Err(DecodeError::StoreMiss(addr));
        },
    };
    let table = match store.read_by_hash32(h) {
        Some(b) => b.as_slice(),
        None => {
            return Err(DecodeError::StoreMiss(WideHash::Hash32(h)));
        },
    };
    let count = read_uint(table, HASHES_FIELD, 8, e);
    let off = read_uint(table, HASHES_FIELD + 8, 8, e);
    let data = read_uint(table, LANGUAGES_FIELD + 4 * lang.index(), 4, e);
    if count.is_none() || off.is_none() || data.is_none() {
        return Err(DecodeError::UnexpectedEndOfData);
    }
    let off = off.unwrap();
    let first = if off <= (usize::MAX - (HASHES_FIELD + 8)) as u64 {
        Some(HASHES_FIELD + 8 + off as usize)
    } else {
        None
    };
    let hashes = match read_hashes(table, e, first, count.unwrap()) {
        Some(v) => v,
        None => {
            return Err(DecodeError::UnexpectedEndOfData);
        },
    };
    proof {
        lemma_byte_limit_8();
    }
    let data = data.unwrap() as u32;
    let d = match lookup(store, WideHash::Hash32(data)) {
        Lookup::Read(d) => d,
        _ => {
            return Err(DecodeError::StoreMiss(WideHash::Hash32(data)));
        },
    };
    match store.read_by_hash32(d) {
        Some(b) => assemble_strings(b.as_slice(), e, &hashes),
        None => Err(DecodeError::StoreMiss(WideHash::Hash32(d))),
    }
}

/// A reference to a localized string: the index of its language table, and its
/// meaning hash.
#[derive(Debug, Clone, Copy, PartialEq, Eq, Structural)]
pub struct IndexedString(pub u32, pub u32);

/// Bytes of an indexed string.
pub const INDEXED_STRING_SIZE: usize = 8;

impl IndexedString {
    /// The two words at `pos`, if the blob holds them.
    pub open spec fn at(blob: Seq<u8>, pos: int, e: Endian) -> Option<IndexedString> {
        if pos < 0 || pos + INDEXED_STRING_SIZE > blob.len() {
            None
        } else {
            Some(IndexedString(uint_at(blob, pos, 4, e)->0 as u32, uint_at(blob, pos + 4, 4, e)->0 as u32))
        }
    }

    /// Reads the indexed string at `pos`.
    pub fn read(blob: &[u8], pos: usize, e: Endian) -> (r: Result<IndexedString, DecodeError>)
        ensures
            match IndexedString::at(blob@, pos as int, e) {
                Some(x) => r == Ok::<IndexedString, DecodeError>(x),
                None => r == Err::<IndexedString, DecodeError>(DecodeError::UnexpectedEndOfData),
            },
    {
        if pos > blob.len() || blob.len() - pos < INDEXED_STRING_SIZE {
            return Err(DecodeError::UnexpectedEndOfData);
        }
        proof {
            lemma_byte_limit_8();
        }
        let index = read_uint(blob, pos, 4, e).unwrap() as u32;
        let hash = read_uint(blob, pos + 4, 4, e).unwrap() as u32;
        Ok(IndexedString(index, hash))
    }

    pub open spec fn valid_spec(&self) -> bool {
        self.0 != 0xFFFF || self.1 == FNV1_PRIME
    }

    /// Whether the reference may name a string: the index 0xFFFF marks an empty one
    /// unless the hash is the literal-text sentinel.
    pub fn valid(&self) -> (r: bool)
        ensures
            r == self.valid_spec(),
    {
        self.0 != 0xFFFF || self.1 == FNV1_PRIME
    }

    /// The string this reference names in `language`, looked up in the language table
    /// `tables[self.0]`; `None` where it is invalid, the index is out of range, the
    /// strings do not load, or they hold no string with this hash.
    pub fn get(&self, store: &TagStore, tables: &Vec<WideHash>, language: Language, e: Endian) -> (r: Option<String>)
        ensures
            match r {
                Some(s) => {
                    &&& self.valid_spec()
                    &&& self.0 < tables@.len()
                    &&& load_language_spec(store@, tables@[self.0 as int], language, e) matches Ok(m)
                    &&& m.contains_key(self.1)
                    &&& m[self.1] == s@
                },
                None => !self.valid_spec() || self.0 >= tables@.len()
                    || match load_language_spec(store@, tables@[self.0 as int], language, e) {
                        Ok(m) => !m.contains_key(self.1),
                        Err(_) => true,
                    },
            },
    {
        if !self.valid() || self.0 as usize >= tables.len() {
            return None;
        }
        match load_language(store, tables[self.0 as usize], language, e) {
            Ok(m) => match m.get(&self.1) {
                Some(s) => Some(s.clone()),
                None => None,
            },
            Err(_) => None,
        }
    }
}

pub open spec fn language_result_view(r: Result<HashMap<u32, String>, DecodeError>) -> Result<Map<u32, Seq<char>>, DecodeError> {
    match r {
        Ok(m) => Ok(strings_view(m)),
        Err(x) => Err(x),
    }
}

/// The strings of every language of one language table, each language loaded on its own:
/// a language whose data fails keeps its error and leaves the others intact.
pub struct LocalizedStrings {
    languages: Vec<Result<HashMap<u32, String>, DecodeError>>,
}

impl LocalizedStrings {
    /// Outcome of each language, by position in the language table.
    pub closed spec fn outcomes(&self) -> Seq<Result<Map<u32, Seq<char>>, DecodeError>> {
        Seq::new(self.languages@.len(), |i: int| language_result_view(self.languages@[i]))
    }

    /// Loads every language of the language table at `addr`.
    pub fn load(store: &TagStore, addr: WideHash, e: Endian) -> (r: LocalizedStrings)
        ensures
            r.outcomes().len() == LANGUAGE_COUNT,
            forall|l: Language| #[trigger] r.outcomes()[l.index_spec() as int] == load_language_spec(store@, addr, l, e),
    {
        let mut languages: Vec<Result<HashMap<u32, String>, DecodeError>> = Vec::new();
        let mut i: u16 = 0;
        while i < LANGUAGE_COUNT as u16
            invariant
                i <= LANGUAGE_COUNT,
                languages@.len() == i,
                forall|l: Language| #[trigger] l.index_spec() < i ==> language_result_view(languages@[l.index_spec() as int])
                    == load_language_spec(store@, addr, l, e),
            decreases LANGUAGE_COUNT - i,
        {
            let lang = Language::from_repr(i).unwrap();
            let r = load_language(store, addr, lang, e);
            proof {
                assert(language_result_view(r) == load_language_spec(store@, addr, lang, e));
            }
            languages.push(r);
            proof {
                assert forall|l: Language| #[trigger] l.index_spec() < i + 1 implies language_result_view(languages@[l.index_spec() as int])
                    == load_language_spec(store@, addr, l, e) by {
                    if l.index_spec() == i {
                        assert(l == lang);
                    }
                }
            }
            i = i + 1;
        }
        let r = LocalizedStrings { languages };
        assert forall|l: Language| #[trigger] r.outcomes()[l.index_spec() as int] == load_language_spec(store@, addr, l, e) by {
            assert(l.index_spec() < LANGUAGE_COUNT);
        }
        r
    }

    /// The string with meaning hash `hash` in `lang`, where that language loaded and holds it.
    pub fn get(&self, lang: &Language, hash: u32) -> (r: Option<&String>)
        requires
            self.outcomes().len() == LANGUAGE_COUNT,
        ensures
            match self.outcomes()[lang.index_spec() as int] {
                Ok(m) => match r {
                    Some(s) => m.contains_key(hash) && m[hash] == s@,
                    None => !m.contains_key(hash),
                },
                Err(_) => r is None,
            },
    {
        match &self.languages[lang.index()] {
            Ok(m) => m.get(&hash),
            Err(_) => None,
        }
    }

    /// The outcome of loading `lang`.
    pub fn strings(&self, lang: &Language) -> (r: &Result<HashMap<u32, String>, DecodeError>)
        requires
            self.outcomes().len() == LANGUAGE_COUNT,
        ensures
            language_result_view(*r) == self.outcomes()[lang.index_spec() as int],
    {
        &self.languages[lang.index()]
    }
}

/// A combination of two parts, a literal and then a substitution of `h`, assembles to
/// the literal's text followed by the placeholder of `h`, with nothing between them.
pub proof fn lemma_literal_then_substitution(blob: Seq<u8>, e: Endian, pos: int, first: int, data: int, len: nat, h: u32)
    requires
        pointer_at(blob, pos, e) == Some(first),
        uint_at(blob, pos + 8, 8, e) == Some(2nat),
        first >= 0,
        first + 2 * STRING_PART_SIZE <= blob.len(),
        uint_at(blob, first + 0x10, 4, e) == Some(FNV1_PRIME as nat),
        uint_at(blob, first + 0x14, 2, e) == Some(len),
        pointer_at(blob, first + 8, e) == Some(data),
        data + len <= blob.len(),
        uint_at(blob, first + STRING_PART_SIZE + 0x10, 4, e) == Some(h as nat),
        h != FNV1_PRIME,
    ensures
        combination_spec(blob, e, pos) == Ok::<Seq<char>, DecodeError>(
            utf8_lossy(blob.subrange(data, data + len)) + placeholder(h),
        ),
{
    reveal_with_fuel(parts_spec, 3);
    let lit = utf8_lossy(blob.subrange(data, data + len));
    assert(part_spec(blob, e, first) == Ok::<Seq<char>, DecodeError>(lit));
    assert(part_spec(blob, e, first + STRING_PART_SIZE) == Ok::<Seq<char>, DecodeError>(placeholder(h)));
    assert(Seq::<char>::empty() + lit =~= lit);
}

/// The placeholder of 0xAABBCCDD reads `<AABBCCDD>`.
pub proof fn lemma_placeholder_example()
    ensures
        placeholder(0xAABBCCDD) == seq!['<', 'A', 'A', 'B', 'B', 'C', 'C', 'D', 'D', '>'],
{
    reveal_with_fuel(hex_digits, 9);
    assert(placeholder(0xAABBCCDD) =~= seq!['<', 'A', 'A', 'B', 'B', 'C', 'C', 'D', 'D', '>']);
}

} // verus!
