use tachyscope::address::{read_address, WideHash};
use tachyscope::decoder::{decode_record, lookup, resolve, DecodeError, Lookup, Resolved};
use tachyscope::schema::{FieldDescriptor, FieldRule, RecordSchema, ScalarKind, VariantShape};
use tachyscope::store::TagStore;
use tachyscope::value::Value;
use tachyscope::wire::{read_uint, Endian};

fn put(b: &mut Vec<u8>, pos: usize, bytes: &[u8]) {
    if b.len() < pos + bytes.len() {
        b.resize(pos + bytes.len(), 0);
    }
    b[pos..pos + bytes.len()].copy_from_slice(bytes);
}

fn field(offset: usize, rule: FieldRule) -> FieldDescriptor {
    FieldDescriptor { offset, rule }
}

fn scalar(kind: ScalarKind) -> FieldRule {
    FieldRule::Scalar(kind)
}

/// One `u32` at offset 0, declared size 4.
fn word_schema(type_id: u32) -> RecordSchema {
    RecordSchema { type_id, size: Some(4), fields: vec![field(0, scalar(ScalarKind::U32))] }
}

fn word_record(v: u64) -> Value {
    Value::Record(vec![Value::Scalar(v)])
}

#[test]
fn integers_in_both_byte_orders() {
    let b = [0x01u8, 0x02, 0x03, 0x04, 0x05, 0x06, 0x07, 0x08];
    assert_eq!(read_uint(&b, 0, 4, Endian::Little), Some(0x04030201));
    assert_eq!(read_uint(&b, 0, 4, Endian::Big), Some(0x01020304));
    assert_eq!(read_uint(&b, 0, 8, Endian::Little), Some(0x0807060504030201));
    assert_eq!(read_uint(&b, 6, 2, Endian::Big), Some(0x0708));
    assert_eq!(read_uint(&b, 6, 4, Endian::Little), None);
    assert_eq!(read_uint(&b, 9, 0, Endian::Little), None);
}

#[test]
fn wide_address_selects_candidate_by_flag() {
    let mut b = Vec::new();
    put(&mut b, 0, &0x80801234u32.to_le_bytes());
    put(&mut b, 4, &1u32.to_le_bytes());
    put(&mut b, 8, &0x1122334455667788u64.to_le_bytes());
    assert_eq!(read_address(&b, 0, true, Endian::Little), Some(WideHash::Hash32(0x80801234)));
    put(&mut b, 4, &0u32.to_le_bytes());
    assert_eq!(read_address(&b, 0, true, Endian::Little), Some(WideHash::Hash64(0x1122334455667788)));
    assert_eq!(read_address(&b, 0, false, Endian::Little), Some(WideHash::Hash32(0x80801234)));
    assert_eq!(read_address(&b, 4, true, Endian::Little), None);
}

#[test]
fn address_sentinels_are_absent() {
    assert!(!WideHash::Hash32(0).is_some());
    assert!(!WideHash::Hash32(u32::MAX).is_some());
    assert!(!WideHash::Hash64(0).is_some());
    assert!(!WideHash::Hash64(u64::MAX).is_some());
    assert!(WideHash::Hash32(1).is_some());
    assert!(WideHash::Hash64(u32::MAX as u64).is_some());
    assert_eq!(WideHash::Hash32(7).key(), 7);
    assert_eq!(WideHash::Hash64(1 << 40).key(), 1 << 40);
}

#[test]
fn record_fields_follow_declared_offsets() {
    let schema = RecordSchema {
        type_id: 1,
        size: Some(0x10),
        fields: vec![
            field(0, scalar(ScalarKind::U32)),
            field(8, scalar(ScalarKind::I16)),
            field(0xA, scalar(ScalarKind::U8)),
        ],
    };
    let mut b = Vec::new();
    put(&mut b, 0, &0xDEADBEEFu32.to_be_bytes());
    put(&mut b, 4, &[0xFF; 4]);
    put(&mut b, 8, &(-2i16).to_be_bytes());
    put(&mut b, 0xA, &[0x42]);
    let store = TagStore::new();
    let v = decode_record(&store, &b, 0, &schema, Endian::Big).unwrap();
    assert_eq!(
        v,
        Value::Record(vec![Value::Scalar(0xDEADBEEF), Value::Scalar(0xFFFE), Value::Scalar(0x42)])
    );
}

#[test]
fn nested_record_is_relative_to_its_field() {
    let inner = RecordSchema {
        type_id: 2,
        size: Some(8),
        fields: vec![field(4, scalar(ScalarKind::U16))],
    };
    let outer = RecordSchema {
        type_id: 3,
        size: Some(0x10),
        fields: vec![field(8, FieldRule::Nested(Box::new(inner)))],
    };
    let mut b = vec![0u8; 0x10];
    put(&mut b, 0xC, &0x1234u16.to_le_bytes());
    let store = TagStore::new();
    let v = decode_record(&store, &b, 0, &outer, Endian::Little).unwrap();
    assert_eq!(v, Value::Record(vec![Value::Record(vec![Value::Scalar(0x1234)])]));
}

#[test]
fn sequence_elements_lie_one_stride_apart() {
    let schema = RecordSchema {
        type_id: 4,
        size: Some(0x10),
        fields: vec![field(0, FieldRule::Sequence(Box::new(word_schema(5))))],
    };
    let mut b = vec![0u8; 0x10];
    put(&mut b, 0, &3u64.to_le_bytes());
    // The offset is relative to its own position, 8: the elements start at 0x18.
    put(&mut b, 8, &0x10u64.to_le_bytes());
    put(&mut b, 0x18, &10u32.to_le_bytes());
    put(&mut b, 0x1C, &20u32.to_le_bytes());
    put(&mut b, 0x20, &30u32.to_le_bytes());
    let store = TagStore::new();
    let v = decode_record(&store, &b, 0, &schema, Endian::Little).unwrap();
    assert_eq!(
        v,
        Value::Record(vec![Value::Sequence(vec![word_record(10), word_record(20), word_record(30)])])
    );
}

#[test]
fn empty_sequence_ignores_its_offset() {
    let schema = RecordSchema {
        type_id: 4,
        size: None,
        fields: vec![field(0, FieldRule::Sequence(Box::new(word_schema(5))))],
    };
    let mut b = vec![0u8; 0x10];
    put(&mut b, 8, &u64::MAX.to_le_bytes());
    let store = TagStore::new();
    let v = decode_record(&store, &b, 0, &schema, Endian::Little).unwrap();
    assert_eq!(v, Value::Record(vec![Value::Sequence(vec![])]));
}

#[test]
fn sequence_past_the_end_is_refused() {
    let schema = RecordSchema {
        type_id: 4,
        size: None,
        fields: vec![field(0, FieldRule::Sequence(Box::new(word_schema(5))))],
    };
    let mut b = vec![0u8; 0x18];
    put(&mut b, 0, &2u64.to_le_bytes());
    put(&mut b, 8, &0x10u64.to_le_bytes());
    let store = TagStore::new();
    assert_eq!(
        decode_record(&store, &b, 0, &schema, Endian::Little),
        Err(DecodeError::UnexpectedEndOfData)
    );
}

#[test]
fn short_bytes_are_refused() {
    let store = TagStore::new();
    let b = [1u8, 2, 3];
    assert_eq!(
        decode_record(&store, &b, 0, &word_schema(9), Endian::Little),
        Err(DecodeError::UnexpectedEndOfData)
    );
    assert_eq!(
        decode_record(&store, &b, 4, &RecordSchema::new(9, None), Endian::Little),
        Err(DecodeError::UnexpectedEndOfData)
    );
}

#[test]
fn fields_past_declared_size_are_an_overrun() {
    let schema = RecordSchema {
        type_id: 0x808099F7,
        size: Some(4),
        fields: vec![field(2, scalar(ScalarKind::U32))],
    };
    let b = vec![0u8; 8];
    let store = TagStore::new();
    assert_eq!(
        decode_record(&store, &b, 0, &schema, Endian::Little),
        Err(DecodeError::RecordOverrun(0x808099F7))
    );
}

fn reference_schema(optional: bool, wide: bool) -> RecordSchema {
    RecordSchema {
        type_id: 6,
        size: None,
        fields: vec![field(0, FieldRule::Reference { wide, optional, target: Box::new(word_schema(7)) })],
    }
}

#[test]
fn reference_resolves_through_the_store() {
    let mut store = TagStore::new();
    store.insert_blob(0x80801000, 99u32.to_le_bytes().to_vec());
    let b = 0x80801000u32.to_le_bytes().to_vec();
    let v = decode_record(&store, &b, 0, &reference_schema(false, false), Endian::Little).unwrap();
    assert_eq!(
        v,
        Value::Record(vec![Value::Reference(WideHash::Hash32(0x80801000), Some(Box::new(word_record(99))))])
    );
}

#[test]
fn optional_reference_may_be_absent() {
    let store = TagStore::new();
    let b = u32::MAX.to_le_bytes().to_vec();
    let v = decode_record(&store, &b, 0, &reference_schema(true, false), Endian::Little).unwrap();
    assert_eq!(v, Value::Record(vec![Value::Reference(WideHash::Hash32(u32::MAX), None)]));
    assert_eq!(
        decode_record(&store, &b, 0, &reference_schema(false, false), Endian::Little),
        Err(DecodeError::StoreMiss(WideHash::Hash32(u32::MAX)))
    );
}

#[test]
fn missing_bytes_are_a_store_miss() {
    let store = TagStore::new();
    let b = 0x80801000u32.to_le_bytes().to_vec();
    assert_eq!(
        decode_record(&store, &b, 0, &reference_schema(true, false), Endian::Little),
        Err(DecodeError::StoreMiss(WideHash::Hash32(0x80801000)))
    );
}

#[test]
fn wide_reference_goes_through_the_fallback_table() {
    let mut store = TagStore::new();
    store.insert_blob(0x80802000, 5u32.to_le_bytes().to_vec());
    store.insert_hash64(0xABCDEF, 0x80802000);
    let mut b = Vec::new();
    put(&mut b, 0, &0u32.to_le_bytes());
    put(&mut b, 4, &0u32.to_le_bytes());
    put(&mut b, 8, &0xABCDEFu64.to_le_bytes());
    let v = decode_record(&store, &b, 0, &reference_schema(false, true), Endian::Little).unwrap();
    assert_eq!(
        v,
        Value::Record(vec![Value::Reference(WideHash::Hash64(0xABCDEF), Some(Box::new(word_record(5))))])
    );
}

#[test]
fn unmapped_wide_address_in_both_modes() {
    let store = TagStore::new();
    let schema = word_schema(1);
    let addr = WideHash::Hash64(0x1234);
    assert_eq!(lookup(&store, addr), Lookup::Unresolved(0x1234));
    assert_eq!(resolve(&store, addr, &schema, Endian::Little, false), Ok(Resolved::Empty));
    assert_eq!(resolve(&store, addr, &schema, Endian::Little, true), Ok(Resolved::Unresolved(0x1234)));
}

#[test]
fn direct_address_resolves_to_decoding_its_bytes() {
    let mut store = TagStore::new();
    let bytes = 0x01020304u32.to_le_bytes().to_vec();
    store.insert_blob(0x80803000, bytes.clone());
    // A table entry for the same number must not matter to a 32-bit address.
    store.insert_hash64(0x80803000, 0x80804000);
    let schema = word_schema(1);
    let addr = WideHash::Hash32(0x80803000);
    assert_eq!(lookup(&store, addr), Lookup::Read(0x80803000));
    let direct = decode_record(&store, &bytes, 0, &schema, Endian::Little).unwrap();
    assert_eq!(resolve(&store, addr, &schema, Endian::Little, false), Ok(Resolved::Found(direct)));
    let direct = decode_record(&store, &bytes, 0, &schema, Endian::Little).unwrap();
    assert_eq!(resolve(&store, addr, &schema, Endian::Little, true), Ok(Resolved::Found(direct)));
}

#[test]
fn absent_wide_addresses_resolve_to_empty() {
    let mut store = TagStore::new();
    store.insert_hash64(0, 0x80801000);
    store.insert_hash64(u64::MAX, 0x80801000);
    store.insert_blob(0x80801000, vec![0; 4]);
    let schema = word_schema(1);
    for h in [0u64, u64::MAX] {
        assert_eq!(lookup(&store, WideHash::Hash64(h)), Lookup::Empty);
        assert_eq!(resolve(&store, WideHash::Hash64(h), &schema, Endian::Little, false), Ok(Resolved::Empty));
        assert_eq!(resolve(&store, WideHash::Hash64(h), &schema, Endian::Little, true), Ok(Resolved::Empty));
    }
}

fn variant_schema() -> RecordSchema {
    RecordSchema {
        type_id: 8,
        size: None,
        fields: vec![field(
            0,
            FieldRule::Variant {
                wide: false,
                shapes: vec![
                    VariantShape { discriminant: 0x80803ECD, schema: word_schema(0x80803ECD) },
                    VariantShape {
                        discriminant: 0x80803ECB,
                        schema: RecordSchema {
                            type_id: 0x80803ECB,
                            size: Some(2),
                            fields: vec![field(0, scalar(ScalarKind::U16))],
                        },
                    },
                ],
            },
        )],
    }
}

#[test]
fn variant_dispatches_on_its_discriminant() {
    let mut store = TagStore::new();
    store.insert_blob(0x80805000, 0xBEEFu16.to_le_bytes().to_vec());
    let mut b = Vec::new();
    put(&mut b, 0, &0x80805000u32.to_le_bytes());
    put(&mut b, 4, &0x80803ECBu32.to_le_bytes());
    let v = decode_record(&store, &b, 0, &variant_schema(), Endian::Little).unwrap();
    assert_eq!(
        v,
        Value::Record(vec![Value::Variant(
            WideHash::Hash32(0x80805000),
            0x80803ECB,
            Some(Box::new(Value::Record(vec![Value::Scalar(0xBEEF)])))
        )])
    );
}

#[test]
fn unknown_variant_is_refused_before_any_lookup() {
    // The store lacks the address's bytes: an attempt to resolve would be a store miss.
    let store = TagStore::new();
    let mut b = Vec::new();
    put(&mut b, 0, &0x80805000u32.to_le_bytes());
    put(&mut b, 4, &0x12345678u32.to_le_bytes());
    assert_eq!(
        decode_record(&store, &b, 0, &variant_schema(), Endian::Little),
        Err(DecodeError::UnknownVariant(0x12345678))
    );
}

#[test]
fn absent_variant_is_empty() {
    let store = TagStore::new();
    let mut b = Vec::new();
    put(&mut b, 0, &0u32.to_le_bytes());
    put(&mut b, 4, &0x80803ECDu32.to_le_bytes());
    let v = decode_record(&store, &b, 0, &variant_schema(), Endian::Little).unwrap();
    assert_eq!(v, Value::Record(vec![Value::Variant(WideHash::Hash32(0), 0x80803ECD, None)]));
}

#[test]
fn pushed_fields_follow_the_previous_one() {
    let mut s = RecordSchema::new(10, None);
    s.push(scalar(ScalarKind::U32));
    s.push(scalar(ScalarKind::U16));
    s.push_at(0x10, scalar(ScalarKind::U64));
    s.push(FieldRule::Sequence(Box::new(word_schema(1))));
    let offsets: Vec<usize> = s.fields.iter().map(|f| f.offset).collect();
    assert_eq!(offsets, vec![0, 4, 0x10, 0x18]);
}

#[test]
fn hash32_falls_back_to_the_table() {
    let mut store = TagStore::new();
    store.insert_hash64(0x77, 0x80807777);
    assert_eq!(WideHash::Hash32(0x80801111).hash32_checked(&store), Some(0x80801111));
    assert_eq!(WideHash::Hash32(u32::MAX).hash32_checked(&store), None);
    assert_eq!(WideHash::Hash64(0x77).hash32_checked(&store), Some(0x80807777));
    assert_eq!(WideHash::Hash64(0x78).hash32_checked(&store), None);
    assert_eq!(WideHash::Hash64(0x78).hash32(&store), u32::MAX);
    assert_eq!(WideHash::Hash64(0x77).hash32(&store), 0x80807777);
    assert_eq!(WideHash::Hash32(0).hash32(&store), u32::MAX);
}

#[test]
fn absent_wide_address_ignores_the_table() {
    let mut store = TagStore::new();
    store.insert_hash64(0, 0x80801111);
    store.insert_hash64(u64::MAX, 0x80801111);
    store.insert_hash64(5, u32::MAX);
    assert_eq!(WideHash::Hash64(0).hash32_checked(&store), None);
    assert_eq!(WideHash::Hash64(u64::MAX).hash32_checked(&store), None);
    assert_eq!(WideHash::Hash64(0).hash32(&store), u32::MAX);
    // An entry that is itself absent names nothing.
    assert_eq!(WideHash::Hash64(5).hash32_checked(&store), None);
}

#[test]
fn explicit_offsets_keep_fields_in_offset_order() {
    let mut s = RecordSchema::new(11, None);
    s.push_at(8, scalar(ScalarKind::U32));
    s.push_at(0, scalar(ScalarKind::U16));
    s.push_at(8, scalar(ScalarKind::U8));
    s.push_at(4, scalar(ScalarKind::U16));
    let offsets: Vec<usize> = s.fields.iter().map(|f| f.offset).collect();
    assert_eq!(offsets, vec![0, 4, 8, 8]);
    let mut b = vec![0u8; 12];
    put(&mut b, 0, &1u16.to_le_bytes());
    put(&mut b, 4, &2u16.to_le_bytes());
    put(&mut b, 8, &0x03u32.to_le_bytes());
    let store = TagStore::new();
    assert_eq!(
        decode_record(&store, &b, 0, &s, Endian::Little).unwrap(),
        Value::Record(vec![Value::Scalar(1), Value::Scalar(2), Value::Scalar(3), Value::Scalar(3)])
    );
}
