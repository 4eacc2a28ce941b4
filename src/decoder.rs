//! The record decoder and the reference and variant resolvers, as mathematical
//! definitions and as the code proved to follow them.
use vstd::prelude::*;
use crate::address::{address_at, address_size, read_address, WideHash, NARROW_ADDRESS_SIZE, WIDE_ADDRESS_SIZE};
use crate::schema::{
    check_overrun, overruns, stride, stride_of, FieldRule, RecordSchema, VariantShape,
    DISCRIMINANT_SIZE, SEQUENCE_HEADER_SIZE,
};
use crate::store::{StoreModel, TagStore};
use crate::value::{lemma_views_push, views, Value, ValueModel};
use crate::wire::{read_uint, uint_at, Endian};

verus! {

broadcast use vstd::std_specs::vec::group_vec_axioms;

/// Why a decode failed.
#[derive(Debug, Clone, Copy, PartialEq, Eq, Structural)]
pub enum DecodeError {
    /// The store could not produce bytes for this address.
    StoreMiss(WideHash),
    /// The bytes ended before a field or a sequence did.
    UnexpectedEndOfData,
    /// The fields of the record type with this identifier reach past its declared size.
    RecordOverrun(u32),
    /// No shape of a variant reference has this discriminant.
    UnknownVariant(u32),
    /// A pixel-format value outside every known range.
    FormatOutOfRange(u32),
    /// The meaning hashes and the string combinations, which run in parallel, have
    /// these two different lengths.
    TableSizeMismatch(u64, u64),
}

/// What resolving an address leads to, before any bytes are read.
#[derive(Debug, Clone, Copy, PartialEq, Eq, Structural)]
pub enum Lookup {
    /// The address is absent, or names an absent 32-bit hash.
    Empty,
    /// The 64-bit hash has no entry in the fallback table.
    Unresolved(u64),
    /// The record's bytes are those stored under this 32-bit hash.
    Read(u32),
}

/// Model of the outcome of resolving an address.
pub enum ResolvedModel {
    Empty,
    Unresolved(u64),
    Found(ValueModel),
}

/// The outcome of resolving an address.
#[derive(Debug, PartialEq, Eq)]
pub enum Resolved {
    /// Nothing to decode: the address is absent, or, unchecked, could not be mapped.
    Empty,
    /// Checked resolution only: the 64-bit hash has no fallback entry.
    Unresolved(u64),
    /// The decoded record.
    Found(Value),
}

impl View for Resolved {
    type V = ResolvedModel;

    open spec fn view(&self) -> ResolvedModel {
        match self {
            Resolved::Empty => ResolvedModel::Empty,
            Resolved::Unresolved(h) => ResolvedModel::Unresolved(*h),
            Resolved::Found(v) => ResolvedModel::Found(v@),
        }
    }
}

pub open spec fn result_view(r: Result<Value, DecodeError>) -> Result<ValueModel, DecodeError> {
    match r {
        Ok(v) => Ok(v@),
        Err(e) => Err(e),
    }
}

pub open spec fn resolved_view(r: Result<Resolved, DecodeError>) -> Result<ResolvedModel, DecodeError> {
    match r {
        Ok(v) => Ok(v@),
        Err(e) => Err(e),
    }
}

/// Where an address leads: nowhere for an absent one, through the fallback table for a
/// 64-bit one, and straight to its bytes for a 32-bit one.
pub open spec fn lookup_spec(table: Map<u64, u32>, addr: WideHash) -> Lookup {
    if addr.is_absent() {
        Lookup::Empty
    } else {
        match addr {
            WideHash::Hash32(h) => Lookup::Read(h),
            WideHash::Hash64(h) => if table.contains_key(h) {
                if WideHash::Hash32(table[h]).is_absent() {
                    Lookup::Empty
                } else {
                    Lookup::Read(table[h])
                }
            } else {
                Lookup::Unresolved(h)
            },
        }
    }
}

/// Resolves `addr` and decodes its record with schema `s`. Unchecked, an unmapped 64-bit
/// hash gives `Empty`; checked, it gives `Unresolved`.
pub open spec fn resolve_spec(st: StoreModel, addr: WideHash, s: RecordSchema, e: Endian, checked: bool) -> Result<ResolvedModel, DecodeError>
    decreases s, s.fields@.len() + 2,
{
    match lookup_spec(st.table, addr) {
        Lookup::Empty => Ok(ResolvedModel::Empty),
        Lookup::Unresolved(h) => if checked {
            Ok(ResolvedModel::Unresolved(h))
        } else {
            Ok(ResolvedModel::Empty)
        },
        Lookup::Read(h) => if st.blobs.contains_key(h) {
            match record_spec(st, st.blobs[h], 0, s, e) {
                Ok(v) => Ok(ResolvedModel::Found(v)),
                Err(x) => Err(x),
            }
        } else {
            Err(DecodeError::StoreMiss(WideHash::Hash32(h)))
        },
    }
}

/// The record with schema `s` that starts at `pos` of `blob`. The fields are decoded in
/// order, each at the record's start plus its offset; then the declared size is checked.
pub open spec fn record_spec(st: StoreModel, blob: Seq<u8>, pos: int, s: RecordSchema, e: Endian) -> Result<ValueModel, DecodeError>
    decreases s, s.fields@.len() + 1,
{
    if pos < 0 || pos > blob.len() {
        Err(DecodeError::UnexpectedEndOfData)
    } else {
        match fields_spec(st, blob, pos, s, s.fields@.len(), e) {
            Err(x) => Err(x),
            Ok(vs) => if overruns(s) {
                Err(DecodeError::RecordOverrun(s.type_id))
            } else {
                Ok(ValueModel::Record(vs))
            },
        }
    }
}

/// The first `k` fields of the record at `pos`, or the first error among them.
pub open spec fn fields_spec(st: StoreModel, blob: Seq<u8>, pos: int, s: RecordSchema, k: nat, e: Endian) -> Result<Seq<ValueModel>, DecodeError>
    decreases s, k,
{
    if k == 0 || k > s.fields@.len() {
        Ok(Seq::empty())
    } else {
        match fields_spec(st, blob, pos, s, (k - 1) as nat, e) {
            Err(x) => Err(x),
            Ok(vs) => {
                let f = s.fields@[k - 1];
                match rule_spec(st, blob, pos + f.offset, f.rule, e) {
                    Err(x) => Err(x),
                    Ok(v) => Ok(vs.push(v)),
                }
            },
        }
    }
}

/// Index of the first shape with discriminant `d` among the first `k`.
pub open spec fn shape_index(shapes: Seq<VariantShape>, d: u32, k: nat) -> Option<int>
    decreases k,
{
    if k == 0 || k > shapes.len() {
        None
    } else {
        match shape_index(shapes, d, (k - 1) as nat) {
            Some(j) => Some(j),
            None => if shapes[k - 1].discriminant == d {
                Some(k - 1)
            } else {
                None
            },
        }
    }
}

/// A field with rule `rule` at position `p`.
pub open spec fn rule_spec(st: StoreModel, blob: Seq<u8>, p: int, rule: FieldRule, e: Endian) -> Result<ValueModel, DecodeError>
    decreases rule, 0nat,
{
    match rule {
        FieldRule::Scalar(k) => match uint_at(blob, p, k.width_spec(), e) {
            Some(n) => Ok(ValueModel::Scalar(n as u64)),
            None => Err(DecodeError::UnexpectedEndOfData),
        },
        FieldRule::Nested(s) => record_spec(st, blob, p, *s, e),
        FieldRule::Sequence(s) => {
            let count = uint_at(blob, p, 8, e);
            let off = uint_at(blob, p + 8, 8, e);
            if count is None || off is None {
                Err(DecodeError::UnexpectedEndOfData)
            } else {
                match elems_spec(st, blob, p + 8 + off->0, *s, count->0, e) {
                    Ok(vs) => Ok(ValueModel::Sequence(vs)),
                    Err(x) => Err(x),
                }
            }
        },
        FieldRule::Reference { wide, optional, target } => match address_at(blob, p, wide, e) {
            None => Err(DecodeError::UnexpectedEndOfData),
            Some(a) => match resolve_spec(st, a, *target, e, false) {
                Err(x) => Err(x),
                Ok(ResolvedModel::Found(v)) => Ok(ValueModel::Reference(a, Some(Box::new(v)))),
                Ok(_) => if optional {
                    Ok(ValueModel::Reference(a, None))
                } else {
                    Err(DecodeError::StoreMiss(a))
                },
            },
        },
        FieldRule::Variant { wide, shapes } => {
            let a = address_at(blob, p, wide, e);
            let d = uint_at(blob, p + address_size(wide), 4, e);
            if a is None || d is None {
                Err(DecodeError::UnexpectedEndOfData)
            } else {
                let d = d->0 as u32;
                let j = shape_index(shapes@, d, shapes@.len());
                if j is None || !(0 <= j->0 < shapes@.len()) {
                    Err(DecodeError::UnknownVariant(d))
                } else {
                    match resolve_spec(st, a->0, shapes@[j->0].schema, e, false) {
                        Err(x) => Err(x),
                        Ok(ResolvedModel::Found(v)) => Ok(ValueModel::Variant(a->0, d, Some(Box::new(v)))),
                        Ok(_) => Ok(ValueModel::Variant(a->0, d, None)),
                    }
                }
            }
        },
    }
}

/// The first `k` elements of a sequence whose first element is at `start`.
pub open spec fn elems_spec(st: StoreModel, blob: Seq<u8>, start: int, s: RecordSchema, k: nat, e: Endian) -> Result<Seq<ValueModel>, DecodeError>
    decreases s, s.fields@.len() + 2 + k,
{
    if k == 0 {
        Ok(Seq::empty())
    } else {
        match elems_spec(st, blob, start, s, (k - 1) as nat, e) {
            Err(x) => Err(x),
            Ok(vs) => match record_spec(st, blob, start + (k - 1) * stride(s), s, e) {
                Err(x) => Err(x),
                Ok(v) => Ok(vs.push(v)),
            },
        }
    }
}

pub proof fn lemma_fields_err(st: StoreModel, blob: Seq<u8>, pos: int, s: RecordSchema, k: nat, n: nat, e: Endian)
    requires
        k <= n <= s.fields@.len(),
        fields_spec(st, blob, pos, s, k, e) is Err,
    ensures
        fields_spec(st, blob, pos, s, n, e) == fields_spec(st, blob, pos, s, k, e),
    decreases n,
{
    if k < n {
        lemma_fields_err(st, blob, pos, s, k, (n - 1) as nat, e);
    }
}

pub proof fn lemma_elems_err(st: StoreModel, blob: Seq<u8>, start: int, s: RecordSchema, k: nat, n: nat, e: Endian)
    requires
        k <= n,
        elems_spec(st, blob, start, s, k, e) is Err,
    ensures
        elems_spec(st, blob, start, s, n, e) == elems_spec(st, blob, start, s, k, e),
    decreases n,
{
    if k < n {
        lemma_elems_err(st, blob, start, s, k, (n - 1) as nat, e);
    }
}

pub proof fn lemma_shape_index_stable(shapes: Seq<VariantShape>, d: u32, k: nat, n: nat)
    requires
        k <= n <= shapes.len(),
        shape_index(shapes, d, k) is Some,
    ensures
        shape_index(shapes, d, n) == shape_index(shapes, d, k),
    decreases n,
{
    if k < n {
        lemma_shape_index_stable(shapes, d, k, (n - 1) as nat);
    }
}

/// A field that starts past the end of the bytes cannot be read.
pub proof fn lemma_rule_past_end(st: StoreModel, blob: Seq<u8>, p: int, rule: FieldRule, e: Endian)
    requires
        p > blob.len(),
    ensures
        rule_spec(st, blob, p, rule, e) == Err::<ValueModel, DecodeError>(DecodeError::UnexpectedEndOfData),
{
}

/// Where `addr` leads, consulting the fallback table for a 64-bit hash only.
pub fn lookup(store: &TagStore, addr: WideHash) -> (r: Lookup)
    ensures
        r == lookup_spec(store@.table, addr),
{
    if !addr.is_some() {
        return Lookup::Empty;
    }
    match addr {
        WideHash::Hash32(h) => Lookup::Read(h),
        WideHash::Hash64(h) => match store.resolve_hash64_to_hash32(h) {
            Some(h32) => if WideHash::Hash32(h32).is_some() {
                Lookup::Read(h32)
            } else {
                Lookup::Empty
            },
            None => Lookup::Unresolved(h),
        },
    }
}

/// Resolves `addr` through the store and decodes the record it names with schema `s`.
/// An absent address gives `Empty`. An unmapped 64-bit hash gives `Unresolved` when
/// `checked`, else `Empty`. A 32-bit hash without bytes in the store is a `StoreMiss`.
pub fn resolve(store: &TagStore, addr: WideHash, s: &RecordSchema, e: Endian, checked: bool) -> (r: Result<Resolved, DecodeError>)
    ensures
        resolved_view(r) == resolve_spec(store@, addr, *s, e, checked),
    decreases s, s.fields@.len() + 2,
{
    match lookup(store, addr) {
        Lookup::Empty => Ok(Resolved::Empty),
        Lookup::Unresolved(h) => if checked {
            Ok(Resolved::Unresolved(h))
        } else {
            Ok(Resolved::Empty)
        },
        Lookup::Read(h) => match store.read_by_hash32(h) {
            None => Err(DecodeError::StoreMiss(WideHash::Hash32(h))),
            Some(blob) => match decode_record(store, blob.as_slice(), 0, s, e) {
                Ok(v) => Ok(Resolved::Found(v)),
                Err(x) => Err(x),
            },
        },
    }
}

/// Decodes the record with schema `s` that starts at `pos` of `blob`. The fields are
/// decoded in list order, which is ascending offset order for every schema whose fields
/// satisfy `offsets_ascending`, as those built with `RecordSchema::new`, `push` and
/// `push_at` do.
pub fn decode_record(store: &TagStore, blob: &[u8], pos: usize, s: &RecordSchema, e: Endian) -> (r: Result<Value, DecodeError>)
    ensures
        result_view(r) == record_spec(store@, blob@, pos as int, *s, e),
    decreases s, s.fields@.len() + 1,
{
    if pos > blob.len() {
        return Err(DecodeError::UnexpectedEndOfData);
    }
    let mut vals: Vec<Value> = Vec::new();
    assert(views(vals@) =~= Seq::empty());
    let mut k: usize = 0;
    while k < s.fields.len()
        invariant
            k <= s.fields@.len(),
            pos <= blob@.len(),
            fields_spec(store@, blob@, pos as int, *s, k as nat, e) == Ok::<Seq<ValueModel>, DecodeError>(views(vals@)),
        decreases s.fields@.len() - k,
    {
        let f = &s.fields[k];
        assert(decreases_to!(*s => s.fields@[k as int].rule));
        let r = if f.offset > blob.len() - pos {
            proof {
                lemma_rule_past_end(store@, blob@, pos + f.offset, f.rule, e);
            }
            Err(DecodeError::UnexpectedEndOfData)
        } else {
            decode_rule(store, blob, pos + f.offset, &f.rule, e)
        };
        match r {
            Err(x) => {
                proof {
                    lemma_fields_err(store@, blob@, pos as int, *s, (k + 1) as nat, s.fields@.len(), e);
                }
                return Err(x);
            },
            Ok(v) => {
                proof {
                    lemma_views_push(vals@, v);
                }
                vals.push(v);
            },
        }
        k = k + 1;
    }
    if check_overrun(s) {
        return Err(DecodeError::RecordOverrun(s.type_id));
    }
    Ok(Value::Record(vals))
}

/// `k * stride` where it does not exceed `room`, else `None`.
pub(crate) fn scaled_within(k: u64, stride: usize, room: usize) -> (r: Option<usize>)
    ensures
        k * stride <= room ==> r == Some((k * stride) as usize),
        k * stride > room ==> r is None,
{
    if stride == 0 {
        assert(k * stride == 0) by (nonlinear_arith)
            requires
                stride == 0,
        ;
        return Some(0);
    }
    let q = room / stride;
    proof {
        vstd::arithmetic::div_mod::lemma_fundamental_div_mod(room as int, stride as int);
    }
    if k > q as u64 {
        assert(k * stride > room) by (nonlinear_arith)
            requires
                k >= q + 1,
                room == stride * q + room % stride,
                room % stride < stride,
        ;
        None
    } else {
        assert(k * stride <= room) by (nonlinear_arith)
            requires
                k <= q,
                room == stride * q + room % stride,
                room % stride >= 0,
                stride > 0,
        ;
        Some((k as usize) * stride)
    }
}

/// Decodes the first `count` elements of a sequence whose first element lies `off` bytes
/// after `base`.
fn decode_elements(store: &TagStore, blob: &[u8], base: usize, off: u64, s: &RecordSchema, count: u64, e: Endian) -> (r: Result<Vec<Value>, DecodeError>)
    ensures
        match r {
            Ok(vs) => elems_spec(store@, blob@, base + off, *s, count as nat, e) == Ok::<Seq<ValueModel>, DecodeError>(views(vs@)),
            Err(x) => elems_spec(store@, blob@, base + off, *s, count as nat, e) == Err::<Seq<ValueModel>, DecodeError>(x),
        },
    decreases s, s.fields@.len() + 2,
{
    let ghost start = base + off;
    let len = blob.len();
    let step = stride_of(s);
    let mut vals: Vec<Value> = Vec::new();
    assert(views(vals@) =~= Seq::empty());
    let mut k: u64 = 0;
    while k < count
        invariant
            k <= count,
            len == blob@.len(),
            step == crate::schema::fit(stride(*s)),
            start == base + off,
            elems_spec(store@, blob@, start, *s, k as nat, e) == Ok::<Seq<ValueModel>, DecodeError>(views(vals@)),
        decreases count - k,
    {
        let ghost q = start + k * stride(*s);
        assert(q >= start) by (nonlinear_arith)
            requires
                q == start + k * stride(*s),
                k >= 0,
        ;
        let mut at: Option<usize> = None;
        if base <= len && off <= (len - base) as u64 {
            let first = base + off as usize;
            if k == 0 {
                at = Some(first);
            } else {
                match step {
                    Some(w) => match scaled_within(k, w, len - first) {
                        Some(d) => {
                            at = Some(first + d);
                        },
                        None => {},
                    },
                    None => {
                        assert(k * stride(*s) >= stride(*s)) by (nonlinear_arith)
                            requires
                                k >= 1,
                        ;
                    },
                }
            }
        }
        let r = match at {
            Some(p) => {
                assert(p == q);
                decode_record(store, blob, p, s, e)
            },
            None => {
                assert(q > blob@.len());
                Err(DecodeError::UnexpectedEndOfData)
            },
        };
        match r {
            Err(x) => {
                proof {
                    lemma_elems_err(store@, blob@, start, *s, (k + 1) as nat, count as nat, e);
                }
                return Err(x);
            },
            Ok(v) => {
                proof {
                    lemma_views_push(vals@, v);
                }
                vals.push(v);
            },
        }
        k = k + 1;
    }
    Ok(vals)
}

/// Index of the first shape with discriminant `d`.
fn find_shape(shapes: &Vec<VariantShape>, d: u32) -> (r: Option<usize>)
    ensures
        match r {
            Some(j) => j < shapes@.len() && shape_index(shapes@, d, shapes@.len()) == Some(j as int),
            None => shape_index(shapes@, d, shapes@.len()) is None,
        },
{
    let mut k: usize = 0;
    while k < shapes.len()
        invariant
            k <= shapes@.len(),
            shape_index(shapes@, d, k as nat) is None,
        decreases shapes@.len() - k,
    {
        if shapes[k].discriminant == d {
            proof {
                lemma_shape_index_stable(shapes@, d, (k + 1) as nat, shapes@.len());
            }
            return Some(k);
        }
        k = k + 1;
    }
    None
}

/// Decodes one field with rule `rule` at position `p` of `blob`.
pub fn decode_rule(store: &TagStore, blob: &[u8], p: usize, rule: &FieldRule, e: Endian) -> (r: Result<Value, DecodeError>)
    ensures
        result_view(r) == rule_spec(store@, blob@, p as int, *rule, e),
    decreases rule, 0nat,
{
    let len = blob.len();
    if p > len {
        proof {
            lemma_rule_past_end(store@, blob@, p as int, *rule, e);
        }
        return Err(DecodeError::UnexpectedEndOfData);
    }
    match rule {
        FieldRule::Scalar(k) => match read_uint(blob, p, k.width(), e) {
            Some(n) => Ok(Value::Scalar(n)),
            None => Err(DecodeError::UnexpectedEndOfData),
        },
        FieldRule::Nested(s) => decode_record(store, blob, p, s, e),
        FieldRule::Sequence(s) => {
            if len - p < SEQUENCE_HEADER_SIZE {
                return Err(DecodeError::UnexpectedEndOfData);
            }
            let count = read_uint(blob, p, 8, e);
            let off = read_uint(blob, p + 8, 8, e);
            match (count, off) {
                (Some(count), Some(off)) => match decode_elements(store, blob, p + 8, off, s, count, e) {
                    Ok(vs) => Ok(Value::Sequence(vs)),
                    Err(x) => Err(x),
                },
                _ => Err(DecodeError::UnexpectedEndOfData),
            }
        },
        FieldRule::Reference { wide, optional, target } => match read_address(blob, p, *wide, e) {
            None => Err(DecodeError::UnexpectedEndOfData),
            Some(a) => match resolve(store, a, target, e, false) {
                Err(x) => Err(x),
                Ok(Resolved::Found(v)) => Ok(Value::Reference(a, Some(Box::new(v)))),
                Ok(_) => if *optional {
                    Ok(Value::Reference(a, None))
                } else {
                    Err(DecodeError::StoreMiss(a))
                },
            },
        },
        FieldRule::Variant { wide, shapes } => {
            let size = if *wide { WIDE_ADDRESS_SIZE } else { NARROW_ADDRESS_SIZE };
            if len - p < size + DISCRIMINANT_SIZE {
                return Err(DecodeError::UnexpectedEndOfData);
            }
            let a = read_address(blob, p, *wide, e);
            let d = read_uint(blob, p + size, 4, e);
            match (a, d) {
                (Some(a), Some(d)) => {
                    proof {
                        crate::wire::lemma_byte_limit_8();
                    }
                    let d = d as u32;
                    match find_shape(shapes, d) {
                        None => Err(DecodeError::UnknownVariant(d)),
                        Some(j) => {
                            assert(decreases_to!(*rule => shapes@[j as int].schema));
                            match resolve(store, a, &shapes[j].schema, e, false) {
                                Err(x) => Err(x),
                                Ok(Resolved::Found(v)) => Ok(Value::Variant(a, d, Some(Box::new(v)))),
                                Ok(_) => Ok(Value::Variant(a, d, None)),
                            }
                        },
                    }
                },
                _ => Err(DecodeError::UnexpectedEndOfData),
            }
        },
    }
}

/// A present 32-bit address leads to one read of the bytes stored under that very hash,
/// whatever the fallback table holds, and resolves to exactly what decoding those bytes
/// as a record gives.
pub proof fn lemma_direct_address_reads_once(st: StoreModel, h: u32, s: RecordSchema, e: Endian, checked: bool)
    requires
        !WideHash::Hash32(h).is_absent(),
    ensures
        forall|table: Map<u64, u32>| #[trigger] lookup_spec(table, WideHash::Hash32(h)) == Lookup::Read(h),
        resolve_spec(st, WideHash::Hash32(h), s, e, checked) == if st.blobs.contains_key(h) {
            match record_spec(st, st.blobs[h], 0, s, e) {
                Ok(v) => Ok(ResolvedModel::Found(v)),
                Err(x) => Err(x),
            }
        } else {
            Err(DecodeError::StoreMiss(WideHash::Hash32(h)))
        },
{
}

/// A 64-bit address of value 0 or all-ones resolves to "empty" without consulting the
/// store: neither its table nor its bytes.
pub proof fn lemma_absent_wide_address_is_empty(st: StoreModel, h: u64, s: RecordSchema, e: Endian, checked: bool)
    requires
        h == 0 || h == u64::MAX,
    ensures
        forall|table: Map<u64, u32>| #[trigger] lookup_spec(table, WideHash::Hash64(h)) == Lookup::Empty,
        forall|other: StoreModel| #[trigger] resolve_spec(other, WideHash::Hash64(h), s, e, checked) == Ok::<ResolvedModel, DecodeError>(ResolvedModel::Empty),
{
}

/// A record whose fields read without error, but whose greatest field end exceeds its
/// declared size, is refused as an overrun.
pub proof fn lemma_overrun_detected(st: StoreModel, blob: Seq<u8>, pos: int, s: RecordSchema, e: Endian)
    requires
        0 <= pos <= blob.len(),
        s.size matches Some(n) && crate::schema::inline_end(s) > n,
        fields_spec(st, blob, pos, s, s.fields@.len(), e) is Ok,
    ensures
        record_spec(st, blob, pos, s, e) == Err::<ValueModel, DecodeError>(DecodeError::RecordOverrun(s.type_id)),
{
}

proof fn lemma_shape_index_absent(shapes: Seq<VariantShape>, d: u32, k: nat)
    requires
        forall|i: int| 0 <= i < shapes.len() ==> #[trigger] shapes[i].discriminant != d,
    ensures
        shape_index(shapes, d, k) is None,
    decreases k,
{
    if k > 0 {
        lemma_shape_index_absent(shapes, d, (k - 1) as nat);
    }
}

/// A variant reference whose discriminant no shape carries is refused as an unknown
/// variant, and the outcome does not depend on the store: nothing is resolved.
pub proof fn lemma_unknown_variant(blob: Seq<u8>, p: int, wide: bool, shapes: Vec<VariantShape>, e: Endian)
    requires
        address_at(blob, p, wide, e) is Some,
        uint_at(blob, p + address_size(wide), 4, e) is Some,
        forall|i: int| 0 <= i < shapes@.len() ==> #[trigger] shapes@[i].discriminant
            != uint_at(blob, p + address_size(wide), 4, e)->0 as u32,
    ensures
        forall|st: StoreModel| #[trigger] rule_spec(st, blob, p, FieldRule::Variant { wide, shapes }, e)
            == Err::<ValueModel, DecodeError>(DecodeError::UnknownVariant(uint_at(blob, p + address_size(wide), 4, e)->0 as u32)),
{
    let d = uint_at(blob, p + address_size(wide), 4, e)->0 as u32;
    lemma_shape_index_absent(shapes@, d, shapes@.len());
}

/// A sequence whose count is zero decodes to no elements, whatever its offset holds:
/// the offset is never followed.
pub proof fn lemma_empty_sequence(st: StoreModel, blob: Seq<u8>, p: int, elem: Box<RecordSchema>, e: Endian)
    requires
        uint_at(blob, p, 8, e) == Some(0nat),
        uint_at(blob, p + 8, 8, e) is Some,
    ensures
        rule_spec(st, blob, p, FieldRule::Sequence(elem), e) == Ok::<ValueModel, DecodeError>(ValueModel::Sequence(Seq::empty())),
{
}

} // verus!
