//! Record types with fixed layouts, read directly and described as schemas.
use vstd::prelude::*;
use crate::decoder::{record_spec, DecodeError};
use crate::schema::{offsets_ascending, FieldRule, RecordSchema, ScalarKind};
use crate::store::StoreModel;
use crate::value::ValueModel;
use crate::text::{position_within, IndexedString, INDEXED_STRING_SIZE};
use crate::wire::{lemma_byte_limit_8, read_uint, uint_at, Endian};

verus! {

proof fn lemma_i16_round_trip(v: u16)
    ensures
        ((v as i16) as u16) == v,
{
    assert(((v as i16) as u16) == v) by (bit_vector);
}

proof fn lemma_i32_round_trip(v: u32)
    ensures
        ((v as i32) as u32) == v,
{
    assert(((v as i32) as u32) == v) by (bit_vector);
}

/// Matchmaking settings of an activity.
#[derive(Debug, Clone, Copy, PartialEq, Eq, Structural)]
pub struct S808072F0 {
    pub unk0: IndexedString,
    pub unk8: u32,
    pub min_party: u32,
    pub max_party: u32,
    pub max_players: u32,
}

impl S808072F0 {
    /// Identifier of the record type.
    pub const TYPE_ID: u32 = 0x808072F0;

    /// Declared size of the record.
    pub const SIZE: usize = 0x58;

    /// End of the last field.
    pub const FIELDS_END: usize = 0x18;

    /// The record at `pos`, if the blob holds all of its fields.
    pub open spec fn at(blob: Seq<u8>, pos: int, e: Endian) -> Option<S808072F0> {
        if pos < 0 || pos + S808072F0::FIELDS_END > blob.len() {
            None
        } else {
            Some(S808072F0 {
                unk0: IndexedString::at(blob, pos + 0x0, e)->0,
                unk8: uint_at(blob, pos + 0x8, 4, e)->0 as u32,
                min_party: uint_at(blob, pos + 0xc, 4, e)->0 as u32,
                max_party: uint_at(blob, pos + 0x10, 4, e)->0 as u32,
                max_players: uint_at(blob, pos + 0x14, 4, e)->0 as u32,
            })
        }
    }

    /// Reads the record at `pos`.
    pub fn read(blob: &[u8], pos: usize, e: Endian) -> (r: Result<S808072F0, DecodeError>)
        ensures
            match S808072F0::at(blob@, pos as int, e) {
                Some(x) => r == Ok::<S808072F0, DecodeError>(x),
                None => r == Err::<S808072F0, DecodeError>(DecodeError::UnexpectedEndOfData),
            },
    {
        if pos > blob.len() || blob.len() - pos < S808072F0::FIELDS_END {
            return Err(DecodeError::UnexpectedEndOfData);
        }
        proof {
            lemma_byte_limit_8();
        }
        let unk0 = IndexedString::read(blob, pos + 0x0, e)?;
        let unk8 = read_uint(blob, pos + 0x8, 4, e).unwrap() as u32;
        let min_party = read_uint(blob, pos + 0xc, 4, e).unwrap() as u32;
        let max_party = read_uint(blob, pos + 0x10, 4, e).unwrap() as u32;
        let max_players = read_uint(blob, pos + 0x14, 4, e).unwrap() as u32;
        Ok(S808072F0 { unk0, unk8, min_party, max_party, max_players })
    }
}

/// One phase of an activity's insertion point.
#[derive(Debug, Clone, Copy, PartialEq, Eq, Structural)]
pub struct S80807300 {
    pub phase_hash: u32,
    pub unlock_index: u32,
    pub unk_hash: u32,
}

impl S80807300 {
    /// Identifier of the record type.
    pub const TYPE_ID: u32 = 0x80807300;

    /// Declared size of the record.
    pub const SIZE: usize = 0xc;

    /// End of the last field.
    pub const FIELDS_END: usize = 0xc;

    /// The record at `pos`, if the blob holds all of its fields.
    pub open spec fn at(blob: Seq<u8>, pos: int, e: Endian) -> Option<S80807300> {
        if pos < 0 || pos + S80807300::FIELDS_END > blob.len() {
            None
        } else {
            Some(S80807300 {
                phase_hash: uint_at(blob, pos + 0x0, 4, e)->0 as u32,
                unlock_index: uint_at(blob, pos + 0x4, 4, e)->0 as u32,
                unk_hash: uint_at(blob, pos + 0x8, 4, e)->0 as u32,
            })
        }
    }

    /// Reads the record at `pos`.
    pub fn read(blob: &[u8], pos: usize, e: Endian) -> (r: Result<S80807300, DecodeError>)
        ensures
            match S80807300::at(blob@, pos as int, e) {
                Some(x) => r == Ok::<S80807300, DecodeError>(x),
                None => r == Err::<S80807300, DecodeError>(DecodeError::UnexpectedEndOfData),
            },
    {
        if pos > blob.len() || blob.len() - pos < S80807300::FIELDS_END {
            return Err(DecodeError::UnexpectedEndOfData);
        }
        proof {
            lemma_byte_limit_8();
        }
        let phase_hash = read_uint(blob, pos + 0x0, 4, e).unwrap() as u32;
        let unlock_index = read_uint(blob, pos + 0x4, 4, e).unwrap() as u32;
        let unk_hash = read_uint(blob, pos + 0x8, 4, e).unwrap() as u32;
        Ok(S80807300 { phase_hash, unlock_index, unk_hash })
    }
}

/// Display properties of an activity.
#[derive(Debug, Clone, Copy, PartialEq, Eq, Structural)]
pub struct S808055FB {
    pub name: IndexedString,
    pub description: IndexedString,
}

impl S808055FB {
    /// Identifier of the record type.
    pub const TYPE_ID: u32 = 0x808055FB;

    /// Declared size of the record.
    pub const SIZE: usize = 0x28;

    /// End of the last field.
    pub const FIELDS_END: usize = 0x14;

    /// The record at `pos`, if the blob holds all of its fields.
    pub open spec fn at(blob: Seq<u8>, pos: int, e: Endian) -> Option<S808055FB> {
        if pos < 0 || pos + S808055FB::FIELDS_END > blob.len() {
            None
        } else {
            Some(S808055FB {
                name: IndexedString::at(blob, pos + 0x4, e)->0,
                description: IndexedString::at(blob, pos + 0xc, e)->0,
            })
        }
    }

    /// Reads the record at `pos`.
    pub fn read(blob: &[u8], pos: usize, e: Endian) -> (r: Result<S808055FB, DecodeError>)
        ensures
            match S808055FB::at(blob@, pos as int, e) {
                Some(x) => r == Ok::<S808055FB, DecodeError>(x),
                None => r == Err::<S808055FB, DecodeError>(DecodeError::UnexpectedEndOfData),
            },
    {
        if pos > blob.len() || blob.len() - pos < S808055FB::FIELDS_END {
            return Err(DecodeError::UnexpectedEndOfData);
        }
        proof {
            lemma_byte_limit_8();
        }
        let name = IndexedString::read(blob, pos + 0x4, e)?;
        let description = IndexedString::read(blob, pos + 0xc, e)?;
        Ok(S808055FB { name, description })
    }
}

/// Display properties of an activity's selection screen.
#[derive(Debug, Clone, Copy, PartialEq, Eq, Structural)]
pub struct S808055F9 {
    pub name: IndexedString,
    pub description: IndexedString,
}

impl S808055F9 {
    /// Identifier of the record type.
    pub const TYPE_ID: u32 = 0x808055F9;

    /// Declared size of the record.
    pub const SIZE: usize = 0x28;

    /// End of the last field.
    pub const FIELDS_END: usize = 0x10;

    /// The record at `pos`, if the blob holds all of its fields.
    pub open spec fn at(blob: Seq<u8>, pos: int, e: Endian) -> Option<S808055F9> {
        if pos < 0 || pos + S808055F9::FIELDS_END > blob.len() {
            None
        } else {
            Some(S808055F9 {
                name: IndexedString::at(blob, pos + 0x0, e)->0,
                description: IndexedString::at(blob, pos + 0x8, e)->0,
            })
        }
    }

    /// Reads the record at `pos`.
    pub fn read(blob: &[u8], pos: usize, e: Endian) -> (r: Result<S808055F9, DecodeError>)
        ensures
            match S808055F9::at(blob@, pos as int, e) {
                Some(x) => r == Ok::<S808055F9, DecodeError>(x),
                None => r == Err::<S808055F9, DecodeError>(DecodeError::UnexpectedEndOfData),
            },
    {
        if pos > blob.len() || blob.len() - pos < S808055F9::FIELDS_END {
            return Err(DecodeError::UnexpectedEndOfData);
        }
        proof {
            lemma_byte_limit_8();
        }
        let name = IndexedString::read(blob, pos + 0x0, e)?;
        let description = IndexedString::read(blob, pos + 0x8, e)?;
        Ok(S808055F9 { name, description })
    }
}

/// One requirement of an activity.
#[derive(Debug, Clone, Copy, PartialEq, Eq, Structural)]
pub struct S80805694 {
    pub unk0: u32,
    pub unk4: IndexedString,
    pub unk8: IndexedString,
}

impl S80805694 {
    /// Identifier of the record type.
    pub const TYPE_ID: u32 = 0x80805694;

    /// Declared size of the record.
    pub const SIZE: usize = 0x28;

    /// End of the last field.
    pub const FIELDS_END: usize = 0x14;

    /// The record at `pos`, if the blob holds all of its fields.
    pub open spec fn at(blob: Seq<u8>, pos: int, e: Endian) -> Option<S80805694> {
        if pos < 0 || pos + S80805694::FIELDS_END > blob.len() {
            None
        } else {
            Some(S80805694 {
                unk0: uint_at(blob, pos + 0x0, 4, e)->0 as u32,
                unk4: IndexedString::at(blob, pos + 0x4, e)->0,
                unk8: IndexedString::at(blob, pos + 0xc, e)->0,
            })
        }
    }

    /// Reads the record at `pos`.
    pub fn read(blob: &[u8], pos: usize, e: Endian) -> (r: Result<S80805694, DecodeError>)
        ensures
            match S80805694::at(blob@, pos as int, e) {
                Some(x) => r == Ok::<S80805694, DecodeError>(x),
                None => r == Err::<S80805694, DecodeError>(DecodeError::UnexpectedEndOfData),
            },
    {
        if pos > blob.len() || blob.len() - pos < S80805694::FIELDS_END {
            return Err(DecodeError::UnexpectedEndOfData);
        }
        proof {
            lemma_byte_limit_8();
        }
        let unk0 = read_uint(blob, pos + 0x0, 4, e).unwrap() as u32;
        let unk4 = IndexedString::read(blob, pos + 0x4, e)?;
        let unk8 = IndexedString::read(blob, pos + 0xc, e)?;
        Ok(S80805694 { unk0, unk4, unk8 })
    }
}

/// One reward item of an activity.
#[derive(Debug, Clone, Copy, PartialEq, Eq, Structural)]
pub struct S80805626 {
    pub item_index: i16,
}

impl S80805626 {
    /// Identifier of the record type.
    pub const TYPE_ID: u32 = 0x80805626;

    /// Declared size of the record.
    pub const SIZE: usize = 0x20;

    /// End of the last field.
    pub const FIELDS_END: usize = 0x2;

    /// The record at `pos`, if the blob holds all of its fields.
    pub open spec fn at(blob: Seq<u8>, pos: int, e: Endian) -> Option<S80805626> {
        if pos < 0 || pos + S80805626::FIELDS_END > blob.len() {
            None
        } else {
            Some(S80805626 {
                item_index: (uint_at(blob, pos + 0x0, 2, e)->0 as u16) as i16,
            })
        }
    }

    /// Reads the record at `pos`.
    pub fn read(blob: &[u8], pos: usize, e: Endian) -> (r: Result<S80805626, DecodeError>)
        ensures
            match S80805626::at(blob@, pos as int, e) {
                Some(x) => r == Ok::<S80805626, DecodeError>(x),
                None => r == Err::<S80805626, DecodeError>(DecodeError::UnexpectedEndOfData),
            },
    {
        if pos > blob.len() || blob.len() - pos < S80805626::FIELDS_END {
            return Err(DecodeError::UnexpectedEndOfData);
        }
        proof {
            lemma_byte_limit_8();
        }
        let item_index = (read_uint(blob, pos + 0x0, 2, e).unwrap() as u16) as i16;
        Ok(S80805626 { item_index })
    }
}

/// A modifier of an activity.
#[derive(Debug, Clone, Copy, PartialEq, Eq, Structural)]
pub struct S808059EE {
    pub icon_index: i16,
    pub name: IndexedString,
    pub description: IndexedString,
}

impl S808059EE {
    /// Identifier of the record type.
    pub const TYPE_ID: u32 = 0x808059EE;

    /// Declared size of the record.
    pub const SIZE: usize = 0x18;

    /// End of the last field.
    pub const FIELDS_END: usize = 0x14;

    /// The record at `pos`, if the blob holds all of its fields.
    pub open spec fn at(blob: Seq<u8>, pos: int, e: Endian) -> Option<S808059EE> {
        if pos < 0 || pos + S808059EE::FIELDS_END > blob.len() {
            None
        } else {
            Some(S808059EE {
                icon_index: (uint_at(blob, pos + 0x0, 2, e)->0 as u16) as i16,
                name: IndexedString::at(blob, pos + 0x4, e)->0,
                description: IndexedString::at(blob, pos + 0xc, e)->0,
            })
        }
    }

    /// Reads the record at `pos`.
    pub fn read(blob: &[u8], pos: usize, e: Endian) -> (r: Result<S808059EE, DecodeError>)
        ensures
            match S808059EE::at(blob@, pos as int, e) {
                Some(x) => r == Ok::<S808059EE, DecodeError>(x),
                None => r == Err::<S808059EE, DecodeError>(DecodeError::UnexpectedEndOfData),
            },
    {
        if pos > blob.len() || blob.len() - pos < S808059EE::FIELDS_END {
            return Err(DecodeError::UnexpectedEndOfData);
        }
        proof {
            lemma_byte_limit_8();
        }
        let icon_index = (read_uint(blob, pos + 0x0, 2, e).unwrap() as u16) as i16;
        let name = IndexedString::read(blob, pos + 0x4, e)?;
        let description = IndexedString::read(blob, pos + 0xc, e)?;
        Ok(S808059EE { icon_index, name, description })
    }
}

/// A plug item of an item socket.
#[derive(Debug, Clone, Copy, PartialEq, Eq, Structural)]
pub struct S808077D5 {
    pub plug_index: i16,
}

impl S808077D5 {
    /// Identifier of the record type.
    pub const TYPE_ID: u32 = 0x808077D5;

    /// Declared size of the record.
    pub const SIZE: usize = 0x40;

    /// End of the last field.
    pub const FIELDS_END: usize = 0x22;

    /// The record at `pos`, if the blob holds all of its fields.
    pub open spec fn at(blob: Seq<u8>, pos: int, e: Endian) -> Option<S808077D5> {
        if pos < 0 || pos + S808077D5::FIELDS_END > blob.len() {
            None
        } else {
            Some(S808077D5 {
                plug_index: (uint_at(blob, pos + 0x20, 2, e)->0 as u16) as i16,
            })
        }
    }

    /// Reads the record at `pos`.
    pub fn read(blob: &[u8], pos: usize, e: Endian) -> (r: Result<S808077D5, DecodeError>)
        ensures
            match S808077D5::at(blob@, pos as int, e) {
                Some(x) => r == Ok::<S808077D5, DecodeError>(x),
                None => r == Err::<S808077D5, DecodeError>(DecodeError::UnexpectedEndOfData),
            },
    {
        if pos > blob.len() || blob.len() - pos < S808077D5::FIELDS_END {
            return Err(DecodeError::UnexpectedEndOfData);
        }
        proof {
            lemma_byte_limit_8();
        }
        let plug_index = (read_uint(blob, pos + 0x20, 2, e).unwrap() as u16) as i16;
        Ok(S808077D5 { plug_index })
    }
}

/// One stat of an item.
#[derive(Debug, Clone, Copy, PartialEq, Eq, Structural)]
pub struct S80807386 {
    pub stat_type: i32,
    pub stat_value: i32,
    pub unk28: u64,
}

impl S80807386 {
    /// Identifier of the record type.
    pub const TYPE_ID: u32 = 0x80807386;

    /// Declared size of the record.
    pub const SIZE: usize = 0x30;

    /// End of the last field.
    pub const FIELDS_END: usize = 0x30;

    /// The record at `pos`, if the blob holds all of its fields.
    pub open spec fn at(blob: Seq<u8>, pos: int, e: Endian) -> Option<S80807386> {
        if pos < 0 || pos + S80807386::FIELDS_END > blob.len() {
            None
        } else {
            Some(S80807386 {
                stat_type: (uint_at(blob, pos + 0x0, 4, e)->0 as u32) as i32,
                stat_value: (uint_at(blob, pos + 0x4, 4, e)->0 as u32) as i32,
                unk28: uint_at(blob, pos + 0x28, 8, e)->0 as u64,
            })
        }
    }

    /// Reads the record at `pos`.
    pub fn read(blob: &[u8], pos: usize, e: Endian) -> (r: Result<S80807386, DecodeError>)
        ensures
            match S80807386::at(blob@, pos as int, e) {
                Some(x) => r == Ok::<S80807386, DecodeError>(x),
                None => r == Err::<S80807386, DecodeError>(DecodeError::UnexpectedEndOfData),
            },
    {
        if pos > blob.len() || blob.len() - pos < S80807386::FIELDS_END {
            return Err(DecodeError::UnexpectedEndOfData);
        }
        proof {
            lemma_byte_limit_8();
        }
        let stat_type = (read_uint(blob, pos + 0x0, 4, e).unwrap() as u32) as i32;
        let stat_value = (read_uint(blob, pos + 0x4, 4, e).unwrap() as u32) as i32;
        let unk28 = read_uint(blob, pos + 0x28, 8, e).unwrap();
        Ok(S80807386 { stat_type, stat_value, unk28 })
    }
}

/// One perk of an item.
#[derive(Debug, Clone, Copy, PartialEq, Eq, Structural)]
pub struct S80807387 {
    pub sandbox_perk_index: i16,
}

impl S80807387 {
    /// Identifier of the record type.
    pub const TYPE_ID: u32 = 0x80807387;

    /// Declared size of the record.
    pub const SIZE: usize = 0x18;

    /// End of the last field.
    pub const FIELDS_END: usize = 0x2;

    /// The record at `pos`, if the blob holds all of its fields.
    pub open spec fn at(blob: Seq<u8>, pos: int, e: Endian) -> Option<S80807387> {
        if pos < 0 || pos + S80807387::FIELDS_END > blob.len() {
            None
        } else {
            Some(S80807387 {
                sandbox_perk_index: (uint_at(blob, pos + 0x0, 2, e)->0 as u16) as i16,
            })
        }
    }

    /// Reads the record at `pos`.
    pub fn read(blob: &[u8], pos: usize, e: Endian) -> (r: Result<S80807387, DecodeError>)
        ensures
            match S80807387::at(blob@, pos as int, e) {
                Some(x) => r == Ok::<S80807387, DecodeError>(x),
                None => r == Err::<S80807387, DecodeError>(DecodeError::UnexpectedEndOfData),
            },
    {
        if pos > blob.len() || blob.len() - pos < S80807387::FIELDS_END {
            return Err(DecodeError::UnexpectedEndOfData);
        }
        proof {
            lemma_byte_limit_8();
        }
        let sandbox_perk_index = (read_uint(blob, pos + 0x0, 2, e).unwrap() as u16) as i16;
        Ok(S80807387 { sandbox_perk_index })
    }
}

impl IndexedString {
    /// The schema of an indexed string: two 32-bit words.
    pub open spec fn is_schema(s: RecordSchema) -> bool {
        &&& s.size == Some(INDEXED_STRING_SIZE)
        &&& s.fields@.len() == 2
        &&& s.fields@[0].offset == 0 && s.fields@[0].rule == FieldRule::Scalar(ScalarKind::U32)
        &&& s.fields@[1].offset == 4 && s.fields@[1].rule == FieldRule::Scalar(ScalarKind::U32)
    }

    /// The schema of an indexed string, for the generic decoder.
    pub fn schema() -> (r: RecordSchema)
        ensures
            IndexedString::is_schema(r),
            offsets_ascending(r.fields@),
    {
        let mut s = RecordSchema::new(0, Some(INDEXED_STRING_SIZE));
        s.push_at(0, FieldRule::Scalar(ScalarKind::U32));
        s.push_at(4, FieldRule::Scalar(ScalarKind::U32));
        s
    }

    /// The decoded value that stands for `x`.
    pub open spec fn model(x: IndexedString) -> ValueModel {
        ValueModel::Record(seq![ValueModel::Scalar(x.0 as u64), ValueModel::Scalar(x.1 as u64)])
    }

    /// Decoding with the schema gives what the direct reader gives.
    pub proof fn lemma_schema_agrees(st: StoreModel, blob: Seq<u8>, pos: int, s: RecordSchema, e: Endian)
        requires
            IndexedString::is_schema(s),
        ensures
            record_spec(st, blob, pos, s, e) == match IndexedString::at(blob, pos, e) {
                Some(x) => Ok::<ValueModel, DecodeError>(IndexedString::model(x)),
                None => Err::<ValueModel, DecodeError>(DecodeError::UnexpectedEndOfData),
            },
    {
        reveal_with_fuel(crate::decoder::fields_spec, 3);
        reveal_with_fuel(crate::schema::end_of_fields, 3);
        lemma_byte_limit_8();
        crate::wire::lemma_uint_at_bound(blob, pos, 4, e);
        crate::wire::lemma_uint_at_bound(blob, pos + 4, 4, e);
        assert(crate::schema::rule_width(FieldRule::Scalar(ScalarKind::U32)) == 4);
        assert(crate::schema::end_of_fields(s, 1) == 4);
        assert(crate::schema::end_of_fields(s, 2) == 8);
        assert(!crate::schema::overruns(s));
        if pos >= 0 && pos + INDEXED_STRING_SIZE <= blob.len() {
            let x = IndexedString::at(blob, pos, e)->0;
            let vs = crate::decoder::fields_spec(st, blob, pos, s, 2, e)->Ok_0;
            if let ValueModel::Record(ms) = IndexedString::model(x) {
                assert(vs =~= ms);
            }
        }
    }
}

impl S808072F0 {
    /// The schema of the record: its identifier, its declared size, and its fields.
    pub open spec fn is_schema(s: RecordSchema) -> bool {
        &&& s.type_id == S808072F0::TYPE_ID
        &&& s.size == Some(S808072F0::SIZE)
        &&& s.fields@.len() == 5
        &&& s.fields@[0].offset == 0x0 && s.fields@[0].rule is Nested
            && IndexedString::is_schema(*s.fields@[0].rule->Nested_0)
        &&& s.fields@[1].offset == 0x8 && s.fields@[1].rule == FieldRule::Scalar(ScalarKind::U32)
        &&& s.fields@[2].offset == 0xc && s.fields@[2].rule == FieldRule::Scalar(ScalarKind::U32)
        &&& s.fields@[3].offset == 0x10 && s.fields@[3].rule == FieldRule::Scalar(ScalarKind::U32)
        &&& s.fields@[4].offset == 0x14 && s.fields@[4].rule == FieldRule::Scalar(ScalarKind::U32)
    }

    /// The record's schema, for the generic decoder.
    pub fn schema() -> (r: RecordSchema)
        ensures
            S808072F0::is_schema(r),
            offsets_ascending(r.fields@),
    {
        let mut s = RecordSchema::new(S808072F0::TYPE_ID, Some(S808072F0::SIZE));
        s.push_at(0x0, FieldRule::Nested(Box::new(IndexedString::schema())));
        s.push_at(0x8, FieldRule::Scalar(ScalarKind::U32));
        s.push_at(0xc, FieldRule::Scalar(ScalarKind::U32));
        s.push_at(0x10, FieldRule::Scalar(ScalarKind::U32));
        s.push_at(0x14, FieldRule::Scalar(ScalarKind::U32));
        s
    }

    /// The decoded value that stands for `x`.
    pub open spec fn model(x: S808072F0) -> ValueModel {
        ValueModel::Record(
            seq![
                IndexedString::model(x.unk0),
                ValueModel::Scalar(x.unk8 as u64),
                ValueModel::Scalar(x.min_party as u64),
                ValueModel::Scalar(x.max_party as u64),
                ValueModel::Scalar(x.max_players as u64),
            ],
        )
    }

    /// Decoding with the record's schema gives what the direct reader gives.
    #[verifier::rlimit(60)]
    pub proof fn lemma_schema_agrees(st: StoreModel, blob: Seq<u8>, pos: int, s: RecordSchema, e: Endian)
        requires
            S808072F0::is_schema(s),
            pos >= 0,
        ensures
            record_spec(st, blob, pos, s, e) == match S808072F0::at(blob, pos, e) {
                Some(x) => Ok::<ValueModel, DecodeError>(S808072F0::model(x)),
                None => Err::<ValueModel, DecodeError>(DecodeError::UnexpectedEndOfData),
            },
    {
        reveal_with_fuel(crate::decoder::fields_spec, 6);
        reveal_with_fuel(crate::schema::end_of_fields, 6);
        lemma_byte_limit_8();
        IndexedString::lemma_schema_agrees(st, blob, pos + 0x0, *s.fields@[0].rule->Nested_0, e);
        crate::wire::lemma_uint_at_bound(blob, pos + 0x8, 4, e);
        crate::wire::lemma_uint_at_bound(blob, pos + 0xc, 4, e);
        crate::wire::lemma_uint_at_bound(blob, pos + 0x10, 4, e);
        crate::wire::lemma_uint_at_bound(blob, pos + 0x14, 4, e);
        assert(crate::schema::rule_width(FieldRule::Scalar(ScalarKind::U32)) == 4);
        assert(crate::schema::stride(*s.fields@[0].rule->Nested_0) == 8) by {
            if s.fields@[0].rule is Nested {
                assert(IndexedString::is_schema(*s.fields@[0].rule->Nested_0));
            }
        }
        assert(crate::schema::rule_width(s.fields@[0].rule) == 8);
        assert(crate::schema::end_of_fields(s, 1) == 0x8);
        assert(crate::schema::end_of_fields(s, 2) == 0xc);
        assert(crate::schema::end_of_fields(s, 3) == 0x10);
        assert(crate::schema::end_of_fields(s, 4) == 0x14);
        assert(crate::schema::end_of_fields(s, 5) == 0x18);
        assert(!crate::schema::overruns(s));
        if pos + S808072F0::FIELDS_END <= blob.len() {
            let x = S808072F0::at(blob, pos, e)->0;
            assert(crate::decoder::fields_spec(st, blob, pos, s, 5, e) is Ok);
            let vs = crate::decoder::fields_spec(st, blob, pos, s, 5, e)->Ok_0;
            if let ValueModel::Record(ms) = S808072F0::model(x) {
                assert(vs =~= ms);
            }
        }
    }
}

impl S80807300 {
    /// The schema of the record: its identifier, its declared size, and its fields.
    pub open spec fn is_schema(s: RecordSchema) -> bool {
        &&& s.type_id == S80807300::TYPE_ID
        &&& s.size == Some(S80807300::SIZE)
        &&& s.fields@.len() == 3
        &&& s.fields@[0].offset == 0x0 && s.fields@[0].rule == FieldRule::Scalar(ScalarKind::U32)
        &&& s.fields@[1].offset == 0x4 && s.fields@[1].rule == FieldRule::Scalar(ScalarKind::U32)
        &&& s.fields@[2].offset == 0x8 && s.fields@[2].rule == FieldRule::Scalar(ScalarKind::U32)
    }

    /// The record's schema, for the generic decoder.
    pub fn schema() -> (r: RecordSchema)
        ensures
            S80807300::is_schema(r),
            offsets_ascending(r.fields@),
    {
        let mut s = RecordSchema::new(S80807300::TYPE_ID, Some(S80807300::SIZE));
        s.push_at(0x0, FieldRule::Scalar(ScalarKind::U32));
        s.push_at(0x4, FieldRule::Scalar(ScalarKind::U32));
        s.push_at(0x8, FieldRule::Scalar(ScalarKind::U32));
        s
    }

    /// The decoded value that stands for `x`.
    pub open spec fn model(x: S80807300) -> ValueModel {
        ValueModel::Record(
            seq![
                ValueModel::Scalar(x.phase_hash as u64),
                ValueModel::Scalar(x.unlock_index as u64),
                ValueModel::Scalar(x.unk_hash as u64),
            ],
        )
    }

    /// Decoding with the record's schema gives what the direct reader gives.
    pub proof fn lemma_schema_agrees(st: StoreModel, blob: Seq<u8>, pos: int, s: RecordSchema, e: Endian)
        requires
            S80807300::is_schema(s),
            pos >= 0,
        ensures
            record_spec(st, blob, pos, s, e) == match S80807300::at(blob, pos, e) {
                Some(x) => Ok::<ValueModel, DecodeError>(S80807300::model(x)),
                None => Err::<ValueModel, DecodeError>(DecodeError::UnexpectedEndOfData),
            },
    {
        reveal_with_fuel(crate::decoder::fields_spec, 4);
        reveal_with_fuel(crate::schema::end_of_fields, 4);
        lemma_byte_limit_8();
        crate::wire::lemma_uint_at_bound(blob, pos + 0x0, 4, e);
        crate::wire::lemma_uint_at_bound(blob, pos + 0x4, 4, e);
        crate::wire::lemma_uint_at_bound(blob, pos + 0x8, 4, e);
        assert(crate::schema::rule_width(FieldRule::Scalar(ScalarKind::U32)) == 4);
        assert(crate::schema::end_of_fields(s, 1) == 0x4);
        assert(crate::schema::end_of_fields(s, 2) == 0x8);
        assert(crate::schema::end_of_fields(s, 3) == 0xc);
        assert(!crate::schema::overruns(s));
        if pos + S80807300::FIELDS_END <= blob.len() {
            let x = S80807300::at(blob, pos, e)->0;
            assert(crate::decoder::fields_spec(st, blob, pos, s, 3, e) is Ok);
            let vs = crate::decoder::fields_spec(st, blob, pos, s, 3, e)->Ok_0;
            if let ValueModel::Record(ms) = S80807300::model(x) {
                assert(vs =~= ms);
            }
        }
    }
}

impl S808055FB {
    /// The schema of the record: its identifier, its declared size, and its fields.
    pub open spec fn is_schema(s: RecordSchema) -> bool {
        &&& s.type_id == S808055FB::TYPE_ID
        &&& s.size == Some(S808055FB::SIZE)
        &&& s.fields@.len() == 2
        &&& s.fields@[0].offset == 0x4 && s.fields@[0].rule is Nested
            && IndexedString::is_schema(*s.fields@[0].rule->Nested_0)
        &&& s.fields@[1].offset == 0xc && s.fields@[1].rule is Nested
            && IndexedString::is_schema(*s.fields@[1].rule->Nested_0)
    }

    /// The record's schema, for the generic decoder.
    pub fn schema() -> (r: RecordSchema)
        ensures
            S808055FB::is_schema(r),
            offsets_ascending(r.fields@),
    {
        let mut s = RecordSchema::new(S808055FB::TYPE_ID, Some(S808055FB::SIZE));
        s.push_at(0x4, FieldRule::Nested(Box::new(IndexedString::schema())));
        s.push_at(0xc, FieldRule::Nested(Box::new(IndexedString::schema())));
        s
    }

    /// The decoded value that stands for `x`.
    pub open spec fn model(x: S808055FB) -> ValueModel {
        ValueModel::Record(
            seq![
                IndexedString::model(x.name),
                IndexedString::model(x.description),
            ],
        )
    }

    /// Decoding with the record's schema gives what the direct reader gives.
    pub proof fn lemma_schema_agrees(st: StoreModel, blob: Seq<u8>, pos: int, s: RecordSchema, e: Endian)
        requires
            S808055FB::is_schema(s),
            pos >= 0,
        ensures
            record_spec(st, blob, pos, s, e) == match S808055FB::at(blob, pos, e) {
                Some(x) => Ok::<ValueModel, DecodeError>(S808055FB::model(x)),
                None => Err::<ValueModel, DecodeError>(DecodeError::UnexpectedEndOfData),
            },
    {
        reveal_with_fuel(crate::decoder::fields_spec, 3);
        reveal_with_fuel(crate::schema::end_of_fields, 3);
        lemma_byte_limit_8();
        IndexedString::lemma_schema_agrees(st, blob, pos + 0x4, *s.fields@[0].rule->Nested_0, e);
        IndexedString::lemma_schema_agrees(st, blob, pos + 0xc, *s.fields@[1].rule->Nested_0, e);
        assert(crate::schema::stride(*s.fields@[0].rule->Nested_0) == 8) by {
            if s.fields@[0].rule is Nested {
                assert(IndexedString::is_schema(*s.fields@[0].rule->Nested_0));
            }
        }
        assert(crate::schema::rule_width(s.fields@[0].rule) == 8);
        assert(crate::schema::rule_width(s.fields@[1].rule) == 8);
        assert(crate::schema::end_of_fields(s, 1) == 0xc);
        assert(crate::schema::end_of_fields(s, 2) == 0x14);
        assert(!crate::schema::overruns(s));
        if pos + S808055FB::FIELDS_END <= blob.len() {
            let x = S808055FB::at(blob, pos, e)->0;
            assert(crate::decoder::fields_spec(st, blob, pos, s, 2, e) is Ok);
            let vs = crate::decoder::fields_spec(st, blob, pos, s, 2, e)->Ok_0;
            if let ValueModel::Record(ms) = S808055FB::model(x) {
                assert(vs =~= ms);
            }
        }
    }
}

impl S808055F9 {
    /// The schema of the record: its identifier, its declared size, and its fields.
    pub open spec fn is_schema(s: RecordSchema) -> bool {
        &&& s.type_id == S808055F9::TYPE_ID
        &&& s.size == Some(S808055F9::SIZE)
        &&& s.fields@.len() == 2
        &&& s.fields@[0].offset == 0x0 && s.fields@[0].rule is Nested
            && IndexedString::is_schema(*s.fields@[0].rule->Nested_0)
        &&& s.fields@[1].offset == 0x8 && s.fields@[1].rule is Nested
            && IndexedString::is_schema(*s.fields@[1].rule->Nested_0)
    }

    /// The record's schema, for the generic decoder.
    pub fn schema() -> (r: RecordSchema)
        ensures
            S808055F9::is_schema(r),
            offsets_ascending(r.fields@),
    {
        let mut s = RecordSchema::new(S808055F9::TYPE_ID, Some(S808055F9::SIZE));
        s.push_at(0x0, FieldRule::Nested(Box::new(IndexedString::schema())));
        s.push_at(0x8, FieldRule::Nested(Box::new(IndexedString::schema())));
        s
    }

    /// The decoded value that stands for `x`.
    pub open spec fn model(x: S808055F9) -> ValueModel {
        ValueModel::Record(
            seq![
                IndexedString::model(x.name),
                IndexedString::model(x.description),
            ],
        )
    }

    /// Decoding with the record's schema gives what the direct reader gives.
    pub proof fn lemma_schema_agrees(st: StoreModel, blob: Seq<u8>, pos: int, s: RecordSchema, e: Endian)
        requires
            S808055F9::is_schema(s),
            pos >= 0,
        ensures
            record_spec(st, blob, pos, s, e) == match S808055F9::at(blob, pos, e) {
                Some(x) => Ok::<ValueModel, DecodeError>(S808055F9::model(x)),
                None => Err::<ValueModel, DecodeError>(DecodeError::UnexpectedEndOfData),
            },
    {
        reveal_with_fuel(crate::decoder::fields_spec, 3);
        reveal_with_fuel(crate::schema::end_of_fields, 3);
        lemma_byte_limit_8();
        IndexedString::lemma_schema_agrees(st, blob, pos + 0x0, *s.fields@[0].rule->Nested_0, e);
        IndexedString::lemma_schema_agrees(st, blob, pos + 0x8, *s.fields@[1].rule->Nested_0, e);
        assert(crate::schema::stride(*s.fields@[0].rule->Nested_0) == 8) by {
            if s.fields@[0].rule is Nested {
                assert(IndexedString::is_schema(*s.fields@[0].rule->Nested_0));
            }
        }
        assert(crate::schema::rule_width(s.fields@[0].rule) == 8);
        assert(crate::schema::rule_width(s.fields@[1].rule) == 8);
        assert(crate::schema::end_of_fields(s, 1) == 0x8);
        assert(crate::schema::end_of_fields(s, 2) == 0x10);
        assert(!crate::schema::overruns(s));
        if pos + S808055F9::FIELDS_END <= blob.len() {
            let x = S808055F9::at(blob, pos, e)->0;
            assert(crate::decoder::fields_spec(st, blob, pos, s, 2, e) is Ok);
            let vs = crate::decoder::fields_spec(st, blob, pos, s, 2, e)->Ok_0;
            if let ValueModel::Record(ms) = S808055F9::model(x) {
                assert(vs =~= ms);
            }
        }
    }
}

impl S80805694 {
    /// The schema of the record: its identifier, its declared size, and its fields.
    pub open spec fn is_schema(s: RecordSchema) -> bool {
        &&& s.type_id == S80805694::TYPE_ID
        &&& s.size == Some(S80805694::SIZE)
        &&& s.fields@.len() == 3
        &&& s.fields@[0].offset == 0x0 && s.fields@[0].rule == FieldRule::Scalar(ScalarKind::U32)
        &&& s.fields@[1].offset == 0x4 && s.fields@[1].rule is Nested
            && IndexedString::is_schema(*s.fields@[1].rule->Nested_0)
        &&& s.fields@[2].offset == 0xc && s.fields@[2].rule is Nested
            && IndexedString::is_schema(*s.fields@[2].rule->Nested_0)
    }

    /// The record's schema, for the generic decoder.
    pub fn schema() -> (r: RecordSchema)
        ensures
            S80805694::is_schema(r),
            offsets_ascending(r.fields@),
    {
        let mut s = RecordSchema::new(S80805694::TYPE_ID, Some(S80805694::SIZE));
        s.push_at(0x0, FieldRule::Scalar(ScalarKind::U32));
        s.push_at(0x4, FieldRule::Nested(Box::new(IndexedString::schema())));
        s.push_at(0xc, FieldRule::Nested(Box::new(IndexedString::schema())));
        s
    }

    /// The decoded value that stands for `x`.
    pub open spec fn model(x: S80805694) -> ValueModel {
        ValueModel::Record(
            seq![
                ValueModel::Scalar(x.unk0 as u64),
                IndexedString::model(x.unk4),
                IndexedString::model(x.unk8),
            ],
        )
    }

    /// Decoding with the record's schema gives what the direct reader gives.
    pub proof fn lemma_schema_agrees(st: StoreModel, blob: Seq<u8>, pos: int, s: RecordSchema, e: Endian)
        requires
            S80805694::is_schema(s),
            pos >= 0,
        ensures
            record_spec(st, blob, pos, s, e) == match S80805694::at(blob, pos, e) {
                Some(x) => Ok::<ValueModel, DecodeError>(S80805694::model(x)),
                None => Err::<ValueModel, DecodeError>(DecodeError::UnexpectedEndOfData),
            },
    {
        reveal_with_fuel(crate::decoder::fields_spec, 4);
        reveal_with_fuel(crate::schema::end_of_fields, 4);
        lemma_byte_limit_8();
        crate::wire::lemma_uint_at_bound(blob, pos + 0x0, 4, e);
        IndexedString::lemma_schema_agrees(st, blob, pos + 0x4, *s.fields@[1].rule->Nested_0, e);
        IndexedString::lemma_schema_agrees(st, blob, pos + 0xc, *s.fields@[2].rule->Nested_0, e);
        assert(crate::schema::rule_width(FieldRule::Scalar(ScalarKind::U32)) == 4);
        assert(crate::schema::rule_width(s.fields@[1].rule) == 8);
        assert(crate::schema::rule_width(s.fields@[2].rule) == 8);
        assert(crate::schema::end_of_fields(s, 1) == 0x4);
        assert(crate::schema::end_of_fields(s, 2) == 0xc);
        assert(crate::schema::end_of_fields(s, 3) == 0x14);
        assert(!crate::schema::overruns(s));
        if pos + S80805694::FIELDS_END <= blob.len() {
            let x = S80805694::at(blob, pos, e)->0;
            assert(crate::decoder::fields_spec(st, blob, pos, s, 3, e) is Ok);
            let vs = crate::decoder::fields_spec(st, blob, pos, s, 3, e)->Ok_0;
            if let ValueModel::Record(ms) = S80805694::model(x) {
                assert(vs =~= ms);
            }
        }
    }
}

impl S80805626 {
    /// The schema of the record: its identifier, its declared size, and its fields.
    pub open spec fn is_schema(s: RecordSchema) -> bool {
        &&& s.type_id == S80805626::TYPE_ID
        &&& s.size == Some(S80805626::SIZE)
        &&& s.fields@.len() == 1
        &&& s.fields@[0].offset == 0x0 && s.fields@[0].rule == FieldRule::Scalar(ScalarKind::I16)
    }

    /// The record's schema, for the generic decoder.
    pub fn schema() -> (r: RecordSchema)
        ensures
            S80805626::is_schema(r),
            offsets_ascending(r.fields@),
    {
        let mut s = RecordSchema::new(S80805626::TYPE_ID, Some(S80805626::SIZE));
        s.push_at(0x0, FieldRule::Scalar(ScalarKind::I16));
        s
    }

    /// The decoded value that stands for `x`.
    pub open spec fn model(x: S80805626) -> ValueModel {
        ValueModel::Record(seq![ValueModel::Scalar((x.item_index as u16) as u64)])
    }

    /// Decoding with the record's schema gives what the direct reader gives.
    pub proof fn lemma_schema_agrees(st: StoreModel, blob: Seq<u8>, pos: int, s: RecordSchema, e: Endian)
        requires
            S80805626::is_schema(s),
            pos >= 0,
        ensures
            record_spec(st, blob, pos, s, e) == match S80805626::at(blob, pos, e) {
                Some(x) => Ok::<ValueModel, DecodeError>(S80805626::model(x)),
                None => Err::<ValueModel, DecodeError>(DecodeError::UnexpectedEndOfData),
            },
    {
        reveal_with_fuel(crate::decoder::fields_spec, 2);
        reveal_with_fuel(crate::schema::end_of_fields, 2);
        lemma_byte_limit_8();
        crate::wire::lemma_uint_at_bound(blob, pos + 0x0, 2, e);
        assert(crate::schema::rule_width(FieldRule::Scalar(ScalarKind::I16)) == 2);
        assert(crate::schema::end_of_fields(s, 1) == 0x2);
        lemma_i16_round_trip(uint_at(blob, pos + 0x0, 2, e)->0 as u16);
        assert(!crate::schema::overruns(s));
        if pos + S80805626::FIELDS_END <= blob.len() {
            let x = S80805626::at(blob, pos, e)->0;
            assert(crate::decoder::fields_spec(st, blob, pos, s, 1, e) is Ok);
            let vs = crate::decoder::fields_spec(st, blob, pos, s, 1, e)->Ok_0;
            if let ValueModel::Record(ms) = S80805626::model(x) {
                assert(vs =~= ms);
            }
        }
    }
}

impl S808059EE {
    /// The schema of the record: its identifier, its declared size, and its fields.
    pub open spec fn is_schema(s: RecordSchema) -> bool {
        &&& s.type_id == S808059EE::TYPE_ID
        &&& s.size == Some(S808059EE::SIZE)
        &&& s.fields@.len() == 3
        &&& s.fields@[0].offset == 0x0 && s.fields@[0].rule == FieldRule::Scalar(ScalarKind::I16)
        &&& s.fields@[1].offset == 0x4 && s.fields@[1].rule is Nested
            && IndexedString::is_schema(*s.fields@[1].rule->Nested_0)
        &&& s.fields@[2].offset == 0xc && s.fields@[2].rule is Nested
            && IndexedString::is_schema(*s.fields@[2].rule->Nested_0)
    }

    /// The record's schema, for the generic decoder.
    pub fn schema() -> (r: RecordSchema)
        ensures
            S808059EE::is_schema(r),
            offsets_ascending(r.fields@),
    {
        let mut s = RecordSchema::new(S808059EE::TYPE_ID, Some(S808059EE::SIZE));
        s.push_at(0x0, FieldRule::Scalar(ScalarKind::I16));
        s.push_at(0x4, FieldRule::Nested(Box::new(IndexedString::schema())));
        s.push_at(0xc, FieldRule::Nested(Box::new(IndexedString::schema())));
        s
    }

    /// The decoded value that stands for `x`.
    pub open spec fn model(x: S808059EE) -> ValueModel {
        ValueModel::Record(
            seq![
                ValueModel::Scalar((x.icon_index as u16) as u64),
                IndexedString::model(x.name),
                IndexedString::model(x.description),
            ],
        )
    }

    /// Decoding with the record's schema gives what the direct reader gives.
    pub proof fn lemma_schema_agrees(st: StoreModel, blob: Seq<u8>, pos: int, s: RecordSchema, e: Endian)
        requires
            S808059EE::is_schema(s),
            pos >= 0,
        ensures
            record_spec(st, blob, pos, s, e) == match S808059EE::at(blob, pos, e) {
                Some(x) => Ok::<ValueModel, DecodeError>(S808059EE::model(x)),
                None => Err::<ValueModel, DecodeError>(DecodeError::UnexpectedEndOfData),
            },
    {
        reveal_with_fuel(crate::decoder::fields_spec, 4);
        reveal_with_fuel(crate::schema::end_of_fields, 4);
        lemma_byte_limit_8();
        crate::wire::lemma_uint_at_bound(blob, pos + 0x0, 2, e);
        IndexedString::lemma_schema_agrees(st, blob, pos + 0x4, *s.fields@[1].rule->Nested_0, e);
        IndexedString::lemma_schema_agrees(st, blob, pos + 0xc, *s.fields@[2].rule->Nested_0, e);
        assert(crate::schema::rule_width(FieldRule::Scalar(ScalarKind::I16)) == 2);
        assert(crate::schema::rule_width(s.fields@[1].rule) == 8);
        assert(crate::schema::rule_width(s.fields@[2].rule) == 8);
        assert(crate::schema::end_of_fields(s, 1) == 0x2);
        assert(crate::schema::end_of_fields(s, 2) == 0xc);
        assert(crate::schema::end_of_fields(s, 3) == 0x14);
        lemma_i16_round_trip(uint_at(blob, pos + 0x0, 2, e)->0 as u16);
        assert(!crate::schema::overruns(s));
        if pos + S808059EE::FIELDS_END <= blob.len() {
            let x = S808059EE::at(blob, pos, e)->0;
            assert(crate::decoder::fields_spec(st, blob, pos, s, 3, e) is Ok);
            let vs = crate::decoder::fields_spec(st, blob, pos, s, 3, e)->Ok_0;
            if let ValueModel::Record(ms) = S808059EE::model(x) {
                assert(vs =~= ms);
            }
        }
    }
}

impl S808077D5 {
    /// The schema of the record: its identifier, its declared size, and its fields.
    pub open spec fn is_schema(s: RecordSchema) -> bool {
        &&& s.type_id == S808077D5::TYPE_ID
        &&& s.size == Some(S808077D5::SIZE)
        &&& s.fields@.len() == 1
        &&& s.fields@[0].offset == 0x20 && s.fields@[0].rule == FieldRule::Scalar(ScalarKind::I16)
    }

    /// The record's schema, for the generic decoder.
    pub fn schema() -> (r: RecordSchema)
        ensures
            S808077D5::is_schema(r),
            offsets_ascending(r.fields@),
    {
        let mut s = RecordSchema::new(S808077D5::TYPE_ID, Some(S808077D5::SIZE));
        s.push_at(0x20, FieldRule::Scalar(ScalarKind::I16));
        s
    }

    /// The decoded value that stands for `x`.
    pub open spec fn model(x: S808077D5) -> ValueModel {
        ValueModel::Record(seq![ValueModel::Scalar((x.plug_index as u16) as u64)])
    }

    /// Decoding with the record's schema gives what the direct reader gives.
    pub proof fn lemma_schema_agrees(st: StoreModel, blob: Seq<u8>, pos: int, s: RecordSchema, e: Endian)
        requires
            S808077D5::is_schema(s),
            pos >= 0,
        ensures
            record_spec(st, blob, pos, s, e) == match S808077D5::at(blob, pos, e) {
                Some(x) => Ok::<ValueModel, DecodeError>(S808077D5::model(x)),
                None => Err::<ValueModel, DecodeError>(DecodeError::UnexpectedEndOfData),
            },
    {
        reveal_with_fuel(crate::decoder::fields_spec, 2);
        reveal_with_fuel(crate::schema::end_of_fields, 2);
        lemma_byte_limit_8();
        crate::wire::lemma_uint_at_bound(blob, pos + 0x20, 2, e);
        assert(crate::schema::rule_width(FieldRule::Scalar(ScalarKind::I16)) == 2);
        assert(crate::schema::end_of_fields(s, 1) == 0x22);
        lemma_i16_round_trip(uint_at(blob, pos + 0x20, 2, e)->0 as u16);
        assert(!crate::schema::overruns(s));
        if pos + S808077D5::FIELDS_END <= blob.len() {
            let x = S808077D5::at(blob, pos, e)->0;
            assert(crate::decoder::fields_spec(st, blob, pos, s, 1, e) is Ok);
            let vs = crate::decoder::fields_spec(st, blob, pos, s, 1, e)->Ok_0;
            if let ValueModel::Record(ms) = S808077D5::model(x) {
                assert(vs =~= ms);
            }
        }
    }
}

impl S80807386 {
    /// The schema of the record: its identifier, its declared size, and its fields.
    pub open spec fn is_schema(s: RecordSchema) -> bool {
        &&& s.type_id == S80807386::TYPE_ID
        &&& s.size == Some(S80807386::SIZE)
        &&& s.fields@.len() == 3
        &&& s.fields@[0].offset == 0x0 && s.fields@[0].rule == FieldRule::Scalar(ScalarKind::I32)
        &&& s.fields@[1].offset == 0x4 && s.fields@[1].rule == FieldRule::Scalar(ScalarKind::I32)
        &&& s.fields@[2].offset == 0x28 && s.fields@[2].rule == FieldRule::Scalar(ScalarKind::U64)
    }

    /// The record's schema, for the generic decoder.
    pub fn schema() -> (r: RecordSchema)
        ensures
            S80807386::is_schema(r),
            offsets_ascending(r.fields@),
    {
        let mut s = RecordSchema::new(S80807386::TYPE_ID, Some(S80807386::SIZE));
        s.push_at(0x0, FieldRule::Scalar(ScalarKind::I32));
        s.push_at(0x4, FieldRule::Scalar(ScalarKind::I32));
        s.push_at(0x28, FieldRule::Scalar(ScalarKind::U64));
        s
    }

    /// The decoded value that stands for `x`.
    pub open spec fn model(x: S80807386) -> ValueModel {
        ValueModel::Record(
            seq![
                ValueModel::Scalar((x.stat_type as u32) as u64),
                ValueModel::Scalar((x.stat_value as u32) as u64),
                ValueModel::Scalar(x.unk28),
            ],
        )
    }

    /// Decoding with the record's schema gives what the direct reader gives.
    pub proof fn lemma_schema_agrees(st: StoreModel, blob: Seq<u8>, pos: int, s: RecordSchema, e: Endian)
        requires
            S80807386::is_schema(s),
            pos >= 0,
        ensures
            record_spec(st, blob, pos, s, e) == match S80807386::at(blob, pos, e) {
                Some(x) => Ok::<ValueModel, DecodeError>(S80807386::model(x)),
                None => Err::<ValueModel, DecodeError>(DecodeError::UnexpectedEndOfData),
            },
    {
        reveal_with_fuel(crate::decoder::fields_spec, 4);
        reveal_with_fuel(crate::schema::end_of_fields, 4);
        lemma_byte_limit_8();
        crate::wire::lemma_uint_at_bound(blob, pos + 0x0, 4, e);
        crate::wire::lemma_uint_at_bound(blob, pos + 0x4, 4, e);
        crate::wire::lemma_uint_at_bound(blob, pos + 0x28, 8, e);
        assert(crate::schema::rule_width(FieldRule::Scalar(ScalarKind::I32)) == 4);
        assert(crate::schema::rule_width(FieldRule::Scalar(ScalarKind::U64)) == 8);
        assert(crate::schema::end_of_fields(s, 1) == 0x4);
        assert(crate::schema::end_of_fields(s, 2) == 0x8);
        assert(crate::schema::end_of_fields(s, 3) == 0x30);
        lemma_i32_round_trip(uint_at(blob, pos + 0x0, 4, e)->0 as u32);
        lemma_i32_round_trip(uint_at(blob, pos + 0x4, 4, e)->0 as u32);
        assert(!crate::schema::overruns(s));
        if pos + S80807386::FIELDS_END <= blob.len() {
            let x = S80807386::at(blob, pos, e)->0;
            assert(crate::decoder::fields_spec(st, blob, pos, s, 3, e) is Ok);
            let vs = crate::decoder::fields_spec(st, blob, pos, s, 3, e)->Ok_0;
            if let ValueModel::Record(ms) = S80807386::model(x) {
                assert(vs =~= ms);
            }
        }
    }
}

impl S80807387 {
    /// The schema of the record: its identifier, its declared size, and its fields.
    pub open spec fn is_schema(s: RecordSchema) -> bool {
        &&& s.type_id == S80807387::TYPE_ID
        &&& s.size == Some(S80807387::SIZE)
        &&& s.fields@.len() == 1
        &&& s.fields@[0].offset == 0x0 && s.fields@[0].rule == FieldRule::Scalar(ScalarKind::I16)
    }

    /// The record's schema, for the generic decoder.
    pub fn schema() -> (r: RecordSchema)
        ensures
            S80807387::is_schema(r),
            offsets_ascending(r.fields@),
    {
        let mut s = RecordSchema::new(S80807387::TYPE_ID, Some(S80807387::SIZE));
        s.push_at(0x0, FieldRule::Scalar(ScalarKind::I16));
        s
    }

    /// The decoded value that stands for `x`.
    pub open spec fn model(x: S80807387) -> ValueModel {
        ValueModel::Record(seq![ValueModel::Scalar((x.sandbox_perk_index as u16) as u64)])
    }

    /// Decoding with the record's schema gives what the direct reader gives.
    pub proof fn lemma_schema_agrees(st: StoreModel, blob: Seq<u8>, pos: int, s: RecordSchema, e: Endian)
        requires
            S80807387::is_schema(s),
            pos >= 0,
        ensures
            record_spec(st, blob, pos, s, e) == match S80807387::at(blob, pos, e) {
                Some(x) => Ok::<ValueModel, DecodeError>(S80807387::model(x)),
                None => Err::<ValueModel, DecodeError>(DecodeError::UnexpectedEndOfData),
            },
    {
        reveal_with_fuel(crate::decoder::fields_spec, 2);
        reveal_with_fuel(crate::schema::end_of_fields, 2);
        lemma_byte_limit_8();
        crate::wire::lemma_uint_at_bound(blob, pos + 0x0, 2, e);
        assert(crate::schema::rule_width(FieldRule::Scalar(ScalarKind::I16)) == 2);
        assert(crate::schema::end_of_fields(s, 1) == 0x2);
        lemma_i16_round_trip(uint_at(blob, pos + 0x0, 2, e)->0 as u16);
        assert(!crate::schema::overruns(s));
        if pos + S80807387::FIELDS_END <= blob.len() {
            let x = S80807387::at(blob, pos, e)->0;
            assert(crate::decoder::fields_spec(st, blob, pos, s, 1, e) is Ok);
            let vs = crate::decoder::fields_spec(st, blob, pos, s, 1, e)->Ok_0;
            if let ValueModel::Record(ms) = S80807387::model(x) {
                assert(vs =~= ms);
            }
        }
    }
}

/// A record type with a fixed layout, read in place; sequences of it are read one
/// stride apart.
pub trait FixedRecord: Sized {
    /// Mathematical model of a record.
    type Model;

    spec fn model(&self) -> Self::Model;

    /// The model of the record at `pos`, if the blob holds it.
    spec fn at_spec(blob: Seq<u8>, pos: int, e: Endian) -> Option<Self::Model>;

    /// Distance between consecutive records of a sequence.
    spec fn stride_spec() -> nat;

    /// Nothing is read past the end of the blob.
    proof fn lemma_past_end(blob: Seq<u8>, pos: int, e: Endian)
        requires
            pos > blob.len(),
        ensures
            Self::at_spec(blob, pos, e) is None,
    ;

    fn stride() -> (r: usize)
        ensures
            r == Self::stride_spec(),
    ;

    /// Reads the record at `pos`.
    fn read_at(blob: &[u8], pos: usize, e: Endian) -> (r: Result<Self, DecodeError>)
        ensures
            match Self::at_spec(blob@, pos as int, e) {
                Some(m) => r matches Ok(x) && x.model() == m,
                None => r == Err::<Self, DecodeError>(DecodeError::UnexpectedEndOfData),
            },
    ;
}

impl FixedRecord for S808072F0 {
    type Model = S808072F0;

    open spec fn model(&self) -> S808072F0 {
        *self
    }

    open spec fn at_spec(blob: Seq<u8>, pos: int, e: Endian) -> Option<S808072F0> {
        S808072F0::at(blob, pos, e)
    }

    open spec fn stride_spec() -> nat {
        S808072F0::SIZE as nat
    }

    proof fn lemma_past_end(blob: Seq<u8>, pos: int, e: Endian) {
    }

    fn stride() -> (r: usize) {
        S808072F0::SIZE
    }

    fn read_at(blob: &[u8], pos: usize, e: Endian) -> (r: Result<S808072F0, DecodeError>) {
        S808072F0::read(blob, pos, e)
    }
}

impl FixedRecord for S80807300 {
    type Model = S80807300;

    open spec fn model(&self) -> S80807300 {
        *self
    }

    open spec fn at_spec(blob: Seq<u8>, pos: int, e: Endian) -> Option<S80807300> {
        S80807300::at(blob, pos, e)
    }

    open spec fn stride_spec() -> nat {
        S80807300::SIZE as nat
    }

    proof fn lemma_past_end(blob: Seq<u8>, pos: int, e: Endian) {
    }

    fn stride() -> (r: usize) {
        S80807300::SIZE
    }

    fn read_at(blob: &[u8], pos: usize, e: Endian) -> (r: Result<S80807300, DecodeError>) {
        S80807300::read(blob, pos, e)
    }
}

impl FixedRecord for S808055FB {
    type Model = S808055FB;

    open spec fn model(&self) -> S808055FB {
        *self
    }

    open spec fn at_spec(blob: Seq<u8>, pos: int, e: Endian) -> Option<S808055FB> {
        S808055FB::at(blob, pos, e)
    }

    open spec fn stride_spec() -> nat {
        S808055FB::SIZE as nat
    }

    proof fn lemma_past_end(blob: Seq<u8>, pos: int, e: Endian) {
    }

    fn stride() -> (r: usize) {
        S808055FB::SIZE
    }

    fn read_at(blob: &[u8], pos: usize, e: Endian) -> (r: Result<S808055FB, DecodeError>) {
        S808055FB::read(blob, pos, e)
    }
}

impl FixedRecord for S808055F9 {
    type Model = S808055F9;

    open spec fn model(&self) -> S808055F9 {
        *self
    }

    open spec fn at_spec(blob: Seq<u8>, pos: int, e: Endian) -> Option<S808055F9> {
        S808055F9::at(blob, pos, e)
    }

    open spec fn stride_spec() -> nat {
        S808055F9::SIZE as nat
    }

    proof fn lemma_past_end(blob: Seq<u8>, pos: int, e: Endian) {
    }

    fn stride() -> (r: usize) {
        S808055F9::SIZE
    }

    fn read_at(blob: &[u8], pos: usize, e: Endian) -> (r: Result<S808055F9, DecodeError>) {
        S808055F9::read(blob, pos, e)
    }
}

impl FixedRecord for S80805694 {
    type Model = S80805694;

    open spec fn model(&self) -> S80805694 {
        *self
    }

    open spec fn at_spec(blob: Seq<u8>, pos: int, e: Endian) -> Option<S80805694> {
        S80805694::at(blob, pos, e)
    }

    open spec fn stride_spec() -> nat {
        S80805694::SIZE as nat
    }

    proof fn lemma_past_end(blob: Seq<u8>, pos: int, e: Endian) {
    }

    fn stride() -> (r: usize) {
        S80805694::SIZE
    }

    fn read_at(blob: &[u8], pos: usize, e: Endian) -> (r: Result<S80805694, DecodeError>) {
        S80805694::read(blob, pos, e)
    }
}

impl FixedRecord for S80805626 {
    type Model = S80805626;

    open spec fn model(&self) -> S80805626 {
        *self
    }

    open spec fn at_spec(blob: Seq<u8>, pos: int, e: Endian) -> Option<S80805626> {
        S80805626::at(blob, pos, e)
    }

    open spec fn stride_spec() -> nat {
        S80805626::SIZE as nat
    }

    proof fn lemma_past_end(blob: Seq<u8>, pos: int, e: Endian) {
    }

    fn stride() -> (r: usize) {
        S80805626::SIZE
    }

    fn read_at(blob: &[u8], pos: usize, e: Endian) -> (r: Result<S80805626, DecodeError>) {
        S80805626::read(blob, pos, e)
    }
}

impl FixedRecord for S808059EE {
    type Model = S808059EE;

    open spec fn model(&self) -> S808059EE {
        *self
    }

    open spec fn at_spec(blob: Seq<u8>, pos: int, e: Endian) -> Option<S808059EE> {
        S808059EE::at(blob, pos, e)
    }

    open spec fn stride_spec() -> nat {
        S808059EE::SIZE as nat
    }

    proof fn lemma_past_end(blob: Seq<u8>, pos: int, e: Endian) {
    }

    fn stride() -> (r: usize) {
        S808059EE::SIZE
    }

    fn read_at(blob: &[u8], pos: usize, e: Endian) -> (r: Result<S808059EE, DecodeError>) {
        S808059EE::read(blob, pos, e)
    }
}

impl FixedRecord for S808077D5 {
    type Model = S808077D5;

    open spec fn model(&self) -> S808077D5 {
        *self
    }

    open spec fn at_spec(blob: Seq<u8>, pos: int, e: Endian) -> Option<S808077D5> {
        S808077D5::at(blob, pos, e)
    }

    open spec fn stride_spec() -> nat {
        S808077D5::SIZE as nat
    }

    proof fn lemma_past_end(blob: Seq<u8>, pos: int, e: Endian) {
    }

    fn stride() -> (r: usize) {
        S808077D5::SIZE
    }

    fn read_at(blob: &[u8], pos: usize, e: Endian) -> (r: Result<S808077D5, DecodeError>) {
        S808077D5::read(blob, pos, e)
    }
}

impl FixedRecord for S80807386 {
    type Model = S80807386;

    open spec fn model(&self) -> S80807386 {
        *self
    }

    open spec fn at_spec(blob: Seq<u8>, pos: int, e: Endian) -> Option<S80807386> {
        S80807386::at(blob, pos, e)
    }

    open spec fn stride_spec() -> nat {
        S80807386::SIZE as nat
    }

    proof fn lemma_past_end(blob: Seq<u8>, pos: int, e: Endian) {
    }

    fn stride() -> (r: usize) {
        S80807386::SIZE
    }

    fn read_at(blob: &[u8], pos: usize, e: Endian) -> (r: Result<S80807386, DecodeError>) {
        S80807386::read(blob, pos, e)
    }
}

impl FixedRecord for S80807387 {
    type Model = S80807387;

    open spec fn model(&self) -> S80807387 {
        *self
    }

    open spec fn at_spec(blob: Seq<u8>, pos: int, e: Endian) -> Option<S80807387> {
        S80807387::at(blob, pos, e)
    }

    open spec fn stride_spec() -> nat {
        S80807387::SIZE as nat
    }

    proof fn lemma_past_end(blob: Seq<u8>, pos: int, e: Endian) {
    }

    fn stride() -> (r: usize) {
        S80807387::SIZE
    }

    fn read_at(blob: &[u8], pos: usize, e: Endian) -> (r: Result<S80807387, DecodeError>) {
        S80807387::read(blob, pos, e)
    }
}

/// An element that carries no data: only the count of a sequence of it matters.
impl FixedRecord for () {
    type Model = ();

    open spec fn model(&self) -> () {
        ()
    }

    open spec fn at_spec(blob: Seq<u8>, pos: int, e: Endian) -> Option<()> {
        if 0 <= pos <= blob.len() {
            Some(())
        } else {
            None
        }
    }

    open spec fn stride_spec() -> nat {
        0
    }

    proof fn lemma_past_end(blob: Seq<u8>, pos: int, e: Endian) {
    }

    fn stride() -> (r: usize) {
        0
    }

    fn read_at(blob: &[u8], pos: usize, e: Endian) -> (r: Result<(), DecodeError>) {
        if pos <= blob.len() {
            Ok(())
        } else {
            Err(DecodeError::UnexpectedEndOfData)
        }
    }
}

/// The models of a sequence of records.
pub open spec fn models<T: FixedRecord>(s: Seq<T>) -> Seq<T::Model> {
    s.map_values(|x: T| x.model())
}

/// The models of the first `k` records of a sequence whose first record is at `start`.
pub open spec fn elements_at<T: FixedRecord>(blob: Seq<u8>, start: int, e: Endian, k: nat) -> Option<Seq<T::Model>>
    decreases k,
{
    if k == 0 {
        Some(Seq::empty())
    } else {
        match elements_at::<T>(blob, start, e, (k - 1) as nat) {
            None => None,
            Some(s) => match T::at_spec(blob, start + (k - 1) * T::stride_spec(), e) {
                None => None,
                Some(x) => Some(s.push(x)),
            },
        }
    }
}

/// The models of the records of the sequence field at `p`: a count, then an offset
/// relative to its own position that leads to the first record.
pub open spec fn sequence_at<T: FixedRecord>(blob: Seq<u8>, p: int, e: Endian) -> Option<Seq<T::Model>> {
    let count = uint_at(blob, p, 8, e);
    let off = uint_at(blob, p + 8, 8, e);
    if count is None || off is None {
        None
    } else {
        elements_at::<T>(blob, p + 8 + off->0, e, count->0)
    }
}

proof fn lemma_elements_none<T: FixedRecord>(blob: Seq<u8>, start: int, e: Endian, k: nat, n: nat)
    requires
        k <= n,
        elements_at::<T>(blob, start, e, k) is None,
    ensures
        elements_at::<T>(blob, start, e, n) is None,
    decreases n,
{
    if k < n {
        lemma_elements_none::<T>(blob, start, e, k, (n - 1) as nat);
    }
}

/// Reads the records of the sequence field at `p`.
pub fn read_sequence<T: FixedRecord>(blob: &[u8], p: usize, e: Endian) -> (r: Result<Vec<T>, DecodeError>)
    ensures
        match sequence_at::<T>(blob@, p as int, e) {
            Some(s) => r matches Ok(v) && models(v@) == s,
            None => r == Err::<Vec<T>, DecodeError>(DecodeError::UnexpectedEndOfData),
        },
{
    let len = blob.len();
    if p > len || len - p < 16 {
        return Err(DecodeError::UnexpectedEndOfData);
    }
    let count = read_uint(blob, p, 8, e).unwrap();
    let off = read_uint(blob, p + 8, 8, e).unwrap();
    let ghost start = p + 8 + off;
    let first: Option<usize> = if off <= (usize::MAX - (p + 8)) as u64 {
        Some(p + 8 + off as usize)
    } else {
        None
    };
    let stride = T::stride();
    let mut v: Vec<T> = Vec::new();
    assert(models(v@) =~= Seq::empty());
    let mut k: u64 = 0;
    while k < count
        invariant
            k <= count,
            len == blob@.len(),
            stride == T::stride_spec(),
            uint_at(blob@, p as int, 8, e) == Some(count as nat),
            uint_at(blob@, p + 8, 8, e) == Some(off as nat),
            start == p + 8 + off,
            first is Some ==> first->0 == start,
            first is None ==> start > usize::MAX,
            elements_at::<T>(blob@, start, e, k as nat) == Some(models(v@)),
        decreases count - k,
    {
        let ghost at = start + k * T::stride_spec();
        assert(at >= start) by (nonlinear_arith)
            requires
                at == start + k * T::stride_spec(),
                k >= 0,
        ;
        let step = match first {
            Some(f) => position_within(f, k, stride, len),
            None => None,
        };
        let x = match step {
            Some(q) => T::read_at(blob, q, e),
            None => {
                proof {
                    T::lemma_past_end(blob@, at, e);
                }
                Err(DecodeError::UnexpectedEndOfData)
            },
        };
        match x {
            Ok(x) => {
                let ghost before = v@;
                v.push(x);
                assert(models(v@) =~= models(before).push(x.model()));
            },
            Err(err) => {
                proof {
                    lemma_elements_none::<T>(blob@, start, e, (k + 1) as nat, count as nat);
                }
                return Err(err);
            },
        }
        k = k + 1;
    }
    Ok(v)
}

/// The insertion points of an activity.
#[derive(Debug, Clone, PartialEq, Eq)]
pub struct S808072FE {
    pub phases: Vec<S80807300>,
}

/// Model of [`S808072FE`].
pub ghost struct S808072FEModel {
    pub phases: Seq<<S80807300 as FixedRecord>::Model>,
}

impl S808072FE {
    /// Identifier of the record type.
    pub const TYPE_ID: u32 = 0x808072fe;

    /// Declared size of the record.
    pub const SIZE: usize = 0x28;

    /// End of the last field.
    pub const FIELDS_END: usize = 0x18;

    pub open spec fn model(&self) -> S808072FEModel {
        S808072FEModel {
            phases: models(self.phases@),
        }
    }

    /// The model of the record at `pos`, if the blob holds it and its sequences.
    pub open spec fn at(blob: Seq<u8>, pos: int, e: Endian) -> Option<S808072FEModel> {
        if pos < 0 || pos + S808072FE::FIELDS_END > blob.len() || sequence_at::<S80807300>(blob, pos + 0x8, e) is None {
            None
        } else {
            Some(S808072FEModel {
                phases: sequence_at::<S80807300>(blob, pos + 0x8, e)->0,
            })
        }
    }

    /// Reads the record at `pos`, with the records of its sequences.
    pub fn read(blob: &[u8], pos: usize, e: Endian) -> (r: Result<S808072FE, DecodeError>)
        ensures
            match S808072FE::at(blob@, pos as int, e) {
                Some(m) => r matches Ok(x) && x.model() == m,
                None => r == Err::<S808072FE, DecodeError>(DecodeError::UnexpectedEndOfData),
            },
    {
        if pos > blob.len() || blob.len() - pos < S808072FE::FIELDS_END {
            return Err(DecodeError::UnexpectedEndOfData);
        }
        proof {
            lemma_byte_limit_8();
        }
        let phases = read_sequence::<S80807300>(blob, pos + 0x8, e)?;
        let x = S808072FE { phases };
        Ok(x)
    }
}

impl FixedRecord for S808072FE {
    type Model = S808072FEModel;

    open spec fn model(&self) -> S808072FEModel {
        S808072FE::model(self)
    }

    open spec fn at_spec(blob: Seq<u8>, pos: int, e: Endian) -> Option<S808072FEModel> {
        S808072FE::at(blob, pos, e)
    }

    open spec fn stride_spec() -> nat {
        S808072FE::SIZE as nat
    }

    proof fn lemma_past_end(blob: Seq<u8>, pos: int, e: Endian) {
    }

    fn stride() -> (r: usize) {
        S808072FE::SIZE
    }

    fn read_at(blob: &[u8], pos: usize, e: Endian) -> (r: Result<S808072FE, DecodeError>) {
        S808072FE::read(blob, pos, e)
    }
}

/// The requirements of an activity.
#[derive(Debug, Clone, PartialEq, Eq)]
pub struct S80805691 {
    pub unk0: Vec<()>,
    pub unk10: Vec<S80805694>,
    pub unk20: Vec<S80805694>,
}

/// Model of [`S80805691`].
pub ghost struct S80805691Model {
    pub unk0: Seq<<() as FixedRecord>::Model>,
    pub unk10: Seq<<S80805694 as FixedRecord>::Model>,
    pub unk20: Seq<<S80805694 as FixedRecord>::Model>,
}

impl S80805691 {
    /// Identifier of the record type.
    pub const TYPE_ID: u32 = 0x80805691;

    /// Declared size of the record.
    pub const SIZE: usize = 0x30;

    /// End of the last field.
    pub const FIELDS_END: usize = 0x30;

    pub open spec fn model(&self) -> S80805691Model {
        S80805691Model {
            unk0: models(self.unk0@),
            unk10: models(self.unk10@),
            unk20: models(self.unk20@),
        }
    }

    /// The model of the record at `pos`, if the blob holds it and its sequences.
    pub open spec fn at(blob: Seq<u8>, pos: int, e: Endian) -> Option<S80805691Model> {
        if pos < 0 || pos + S80805691::FIELDS_END > blob.len() || sequence_at::<()>(blob, pos + 0x0, e) is None || sequence_at::<S80805694>(blob, pos + 0x10, e) is None || sequence_at::<S80805694>(blob, pos + 0x20, e) is None {
            None
        } else {
            Some(S80805691Model {
                unk0: sequence_at::<()>(blob, pos + 0x0, e)->0,
                unk10: sequence_at::<S80805694>(blob, pos + 0x10, e)->0,
                unk20: sequence_at::<S80805694>(blob, pos + 0x20, e)->0,
            })
        }
    }

    /// Reads the record at `pos`, with the records of its sequences.
    pub fn read(blob: &[u8], pos: usize, e: Endian) -> (r: Result<S80805691, DecodeError>)
        ensures
            match S80805691::at(blob@, pos as int, e) {
                Some(m) => r matches Ok(x) && x.model() == m,
                None => r == Err::<S80805691, DecodeError>(DecodeError::UnexpectedEndOfData),
            },
    {
        if pos > blob.len() || blob.len() - pos < S80805691::FIELDS_END {
            return Err(DecodeError::UnexpectedEndOfData);
        }
        proof {
            lemma_byte_limit_8();
        }
        let unk0 = read_sequence::<()>(blob, pos + 0x0, e)?;
        let unk10 = read_sequence::<S80805694>(blob, pos + 0x10, e)?;
        let unk20 = read_sequence::<S80805694>(blob, pos + 0x20, e)?;
        let x = S80805691 { unk0, unk10, unk20 };
        Ok(x)
    }
}

impl FixedRecord for S80805691 {
    type Model = S80805691Model;

    open spec fn model(&self) -> S80805691Model {
        S80805691::model(self)
    }

    open spec fn at_spec(blob: Seq<u8>, pos: int, e: Endian) -> Option<S80805691Model> {
        S80805691::at(blob, pos, e)
    }

    open spec fn stride_spec() -> nat {
        S80805691::SIZE as nat
    }

    proof fn lemma_past_end(blob: Seq<u8>, pos: int, e: Endian) {
    }

    fn stride() -> (r: usize) {
        S80805691::SIZE
    }

    fn read_at(blob: &[u8], pos: usize, e: Endian) -> (r: Result<S80805691, DecodeError>) {
        S80805691::read(blob, pos, e)
    }
}

/// The stats and perks of an item.
#[derive(Debug, Clone, PartialEq, Eq)]
pub struct S80807381 {
    pub stats: Vec<S80807386>,
    pub perks: Vec<S80807387>,
}

/// Model of [`S80807381`].
pub ghost struct S80807381Model {
    pub stats: Seq<<S80807386 as FixedRecord>::Model>,
    pub perks: Seq<<S80807387 as FixedRecord>::Model>,
}

impl S80807381 {
    /// Identifier of the record type.
    pub const TYPE_ID: u32 = 0x80807381;

    /// Declared size of the record.
    pub const SIZE: usize = 0x30;

    /// End of the last field.
    pub const FIELDS_END: usize = 0x20;

    pub open spec fn model(&self) -> S80807381Model {
        S80807381Model {
            stats: models(self.stats@),
            perks: models(self.perks@),
        }
    }

    /// The model of the record at `pos`, if the blob holds it and its sequences.
    pub open spec fn at(blob: Seq<u8>, pos: int, e: Endian) -> Option<S80807381Model> {
        if pos < 0 || pos + S80807381::FIELDS_END > blob.len() || sequence_at::<S80807386>(blob, pos + 0x0, e) is None || sequence_at::<S80807387>(blob, pos + 0x10, e) is None {
            None
        } else {
            Some(S80807381Model {
                stats: sequence_at::<S80807386>(blob, pos + 0x0, e)->0,
                perks: sequence_at::<S80807387>(blob, pos + 0x10, e)->0,
            })
        }
    }

    /// Reads the record at `pos`, with the records of its sequences.
    pub fn read(blob: &[u8], pos: usize, e: Endian) -> (r: Result<S80807381, DecodeError>)
        ensures
            match S80807381::at(blob@, pos as int, e) {
                Some(m) => r matches Ok(x) && x.model() == m,
                None => r == Err::<S80807381, DecodeError>(DecodeError::UnexpectedEndOfData),
            },
    {
        if pos > blob.len() || blob.len() - pos < S80807381::FIELDS_END {
            return Err(DecodeError::UnexpectedEndOfData);
        }
        proof {
            lemma_byte_limit_8();
        }
        let stats = read_sequence::<S80807386>(blob, pos + 0x0, e)?;
        let perks = read_sequence::<S80807387>(blob, pos + 0x10, e)?;
        let x = S80807381 { stats, perks };
        Ok(x)
    }
}

impl FixedRecord for S80807381 {
    type Model = S80807381Model;

    open spec fn model(&self) -> S80807381Model {
        S80807381::model(self)
    }

    open spec fn at_spec(blob: Seq<u8>, pos: int, e: Endian) -> Option<S80807381Model> {
        S80807381::at(blob, pos, e)
    }

    open spec fn stride_spec() -> nat {
        S80807381::SIZE as nat
    }

    proof fn lemma_past_end(blob: Seq<u8>, pos: int, e: Endian) {
    }

    fn stride() -> (r: usize) {
        S80807381::SIZE
    }

    fn read_at(blob: &[u8], pos: usize, e: Endian) -> (r: Result<S80807381, DecodeError>) {
        S80807381::read(blob, pos, e)
    }
}

/// One reward of an activity and its items.
#[derive(Debug, Clone, PartialEq, Eq)]
pub struct S80805624 {
    pub unk0: u64,
    pub items: Vec<S80805626>,
}

/// Model of [`S80805624`].
pub ghost struct S80805624Model {
    pub unk0: u64,
    pub items: Seq<<S80805626 as FixedRecord>::Model>,
}

impl S80805624 {
    /// Identifier of the record type.
    pub const TYPE_ID: u32 = 0x80805624;

    /// Declared size of the record.
    pub const SIZE: usize = 0x18;

    /// End of the last field.
    pub const FIELDS_END: usize = 0x18;

    pub open spec fn model(&self) -> S80805624Model {
        S80805624Model {
            unk0: self.unk0,
            items: models(self.items@),
        }
    }

    /// The model of the record at `pos`, if the blob holds it and its sequences.
    pub open spec fn at(blob: Seq<u8>, pos: int, e: Endian) -> Option<S80805624Model> {
        if pos < 0 || pos + S80805624::FIELDS_END > blob.len() || sequence_at::<S80805626>(blob, pos + 0x8, e) is None {
            None
        } else {
            Some(S80805624Model {
                unk0: uint_at(blob, pos + 0x0, 8, e)->0 as u64,
                items: sequence_at::<S80805626>(blob, pos + 0x8, e)->0,
            })
        }
    }

    /// Reads the record at `pos`, with the records of its sequences.
    pub fn read(blob: &[u8], pos: usize, e: Endian) -> (r: Result<S80805624, DecodeError>)
        ensures
            match S80805624::at(blob@, pos as int, e) {
                Some(m) => r matches Ok(x) && x.model() == m,
                None => r == Err::<S80805624, DecodeError>(DecodeError::UnexpectedEndOfData),
            },
    {
        if pos > blob.len() || blob.len() - pos < S80805624::FIELDS_END {
            return Err(DecodeError::UnexpectedEndOfData);
        }
        proof {
            lemma_byte_limit_8();
        }
        let unk0 = read_uint(blob, pos + 0x0, 8, e).unwrap();
        let items = read_sequence::<S80805626>(blob, pos + 0x8, e)?;
        let x = S80805624 { unk0, items };
        Ok(x)
    }
}

impl FixedRecord for S80805624 {
    type Model = S80805624Model;

    open spec fn model(&self) -> S80805624Model {
        S80805624::model(self)
    }

    open spec fn at_spec(blob: Seq<u8>, pos: int, e: Endian) -> Option<S80805624Model> {
        S80805624::at(blob, pos, e)
    }

    open spec fn stride_spec() -> nat {
        S80805624::SIZE as nat
    }

    proof fn lemma_past_end(blob: Seq<u8>, pos: int, e: Endian) {
    }

    fn stride() -> (r: usize) {
        S80805624::SIZE
    }

    fn read_at(blob: &[u8], pos: usize, e: Endian) -> (r: Result<S80805624, DecodeError>) {
        S80805624::read(blob, pos, e)
    }
}

/// One socket of an item.
#[derive(Debug, Clone, PartialEq, Eq)]
pub struct S808077C3 {
    pub socket_index: i16,
    pub single_initial_item_index: i16,
    pub reusable_plugset_index: i16,
    pub reusable_plugset_index_2: i16,
    pub plug_items: Vec<S808077D5>,
}

/// Model of [`S808077C3`].
pub ghost struct S808077C3Model {
    pub socket_index: i16,
    pub single_initial_item_index: i16,
    pub reusable_plugset_index: i16,
    pub reusable_plugset_index_2: i16,
    pub plug_items: Seq<<S808077D5 as FixedRecord>::Model>,
}

impl S808077C3 {
    /// Identifier of the record type.
    pub const TYPE_ID: u32 = 0x808077c3;

    /// Declared size of the record.
    pub const SIZE: usize = 0x58;

    /// End of the last field.
    pub const FIELDS_END: usize = 0x58;

    pub open spec fn model(&self) -> S808077C3Model {
        S808077C3Model {
            socket_index: self.socket_index,
            single_initial_item_index: self.single_initial_item_index,
            reusable_plugset_index: self.reusable_plugset_index,
            reusable_plugset_index_2: self.reusable_plugset_index_2,
            plug_items: models(self.plug_items@),
        }
    }

    /// The model of the record at `pos`, if the blob holds it and its sequences.
    pub open spec fn at(blob: Seq<u8>, pos: int, e: Endian) -> Option<S808077C3Model> {
        if pos < 0 || pos + S808077C3::FIELDS_END > blob.len() || sequence_at::<S808077D5>(blob, pos + 0x48, e) is None {
            None
        } else {
            Some(S808077C3Model {
                socket_index: (uint_at(blob, pos + 0x0, 2, e)->0 as u16) as i16,
                single_initial_item_index: (uint_at(blob, pos + 0x6, 2, e)->0 as u16) as i16,
                reusable_plugset_index: (uint_at(blob, pos + 0x10, 2, e)->0 as u16) as i16,
                reusable_plugset_index_2: (uint_at(blob, pos + 0x28, 2, e)->0 as u16) as i16,
                plug_items: sequence_at::<S808077D5>(blob, pos + 0x48, e)->0,
            })
        }
    }

    /// Reads the record at `pos`, with the records of its sequences.
    pub fn read(blob: &[u8], pos: usize, e: Endian) -> (r: Result<S808077C3, DecodeError>)
        ensures
            match S808077C3::at(blob@, pos as int, e) {
                Some(m) => r matches Ok(x) && x.model() == m,
                None => r == Err::<S808077C3, DecodeError>(DecodeError::UnexpectedEndOfData),
            },
    {
        if pos > blob.len() || blob.len() - pos < S808077C3::FIELDS_END {
            return Err(DecodeError::UnexpectedEndOfData);
        }
        proof {
            lemma_byte_limit_8();
        }
        let socket_index = (read_uint(blob, pos + 0x0, 2, e).unwrap() as u16) as i16;
        let single_initial_item_index = (read_uint(blob, pos + 0x6, 2, e).unwrap() as u16) as i16;
        let reusable_plugset_index = (read_uint(blob, pos + 0x10, 2, e).unwrap() as u16) as i16;
        let reusable_plugset_index_2 = (read_uint(blob, pos + 0x28, 2, e).unwrap() as u16) as i16;
        let plug_items = read_sequence::<S808077D5>(blob, pos + 0x48, e)?;
        let x = S808077C3 { socket_index, single_initial_item_index, reusable_plugset_index, reusable_plugset_index_2, plug_items };
        Ok(x)
    }
}

impl FixedRecord for S808077C3 {
    type Model = S808077C3Model;

    open spec fn model(&self) -> S808077C3Model {
        S808077C3::model(self)
    }

    open spec fn at_spec(blob: Seq<u8>, pos: int, e: Endian) -> Option<S808077C3Model> {
        S808077C3::at(blob, pos, e)
    }

    open spec fn stride_spec() -> nat {
        S808077C3::SIZE as nat
    }

    proof fn lemma_past_end(blob: Seq<u8>, pos: int, e: Endian) {
    }

    fn stride() -> (r: usize) {
        S808077C3::SIZE
    }

    fn read_at(blob: &[u8], pos: usize, e: Endian) -> (r: Result<S808077C3, DecodeError>) {
        S808077C3::read(blob, pos, e)
    }
}

/// A node of an activity graph. Its position overlaps the count of its activities, as
/// the record lays them out.
#[derive(Debug, Clone, PartialEq, Eq)]
pub struct SActivityGraphNode {
    pub node_id: u32,
    pub activities: Vec<()>,
    pub featuring_states: Vec<()>,
    pub pos: [u16; 3],
}

/// Model of [`SActivityGraphNode`].
pub ghost struct SActivityGraphNodeModel {
    pub node_id: u32,
    pub activities: Seq<<() as FixedRecord>::Model>,
    pub featuring_states: Seq<<() as FixedRecord>::Model>,
    pub pos: Seq<u16>,
}

impl SActivityGraphNode {
    /// Identifier of the record type.
    pub const TYPE_ID: u32 = 0x80805671;

    /// Declared size of the record.
    pub const SIZE: usize = 0x114;

    /// End of the last field.
    pub const FIELDS_END: usize = 0x28;

    pub open spec fn model(&self) -> SActivityGraphNodeModel {
        SActivityGraphNodeModel {
            node_id: self.node_id,
            activities: models(self.activities@),
            featuring_states: models(self.featuring_states@),
            pos: self.pos@,
        }
    }

    /// The model of the record at `pos`, if the blob holds it and its sequences.
    pub open spec fn at(blob: Seq<u8>, pos: int, e: Endian) -> Option<SActivityGraphNodeModel> {
        if pos < 0 || pos + SActivityGraphNode::FIELDS_END > blob.len() || sequence_at::<()>(blob, pos + 0x8, e) is None || sequence_at::<()>(blob, pos + 0x18, e) is None {
            None
        } else {
            Some(SActivityGraphNodeModel {
                node_id: uint_at(blob, pos + 0x0, 4, e)->0 as u32,
                activities: sequence_at::<()>(blob, pos + 0x8, e)->0,
                featuring_states: sequence_at::<()>(blob, pos + 0x18, e)->0,
                pos: seq![
                    uint_at(blob, pos + 0x8, 2, e)->0 as u16,
                    uint_at(blob, pos + 0xa, 2, e)->0 as u16,
                    uint_at(blob, pos + 0xc, 2, e)->0 as u16,
                ],
            })
        }
    }

    /// Reads the record at `pos`, with the records of its sequences.
    pub fn read(blob: &[u8], pos: usize, e: Endian) -> (r: Result<SActivityGraphNode, DecodeError>)
        ensures
            match SActivityGraphNode::at(blob@, pos as int, e) {
                Some(m) => r matches Ok(x) && x.model() == m,
                None => r == Err::<SActivityGraphNode, DecodeError>(DecodeError::UnexpectedEndOfData),
            },
    {
        if pos > blob.len() || blob.len() - pos < SActivityGraphNode::FIELDS_END {
            return Err(DecodeError::UnexpectedEndOfData);
        }
        proof {
            lemma_byte_limit_8();
        }
        let node_id = read_uint(blob, pos + 0x0, 4, e).unwrap() as u32;
        let activities = read_sequence::<()>(blob, pos + 0x8, e)?;
        let featuring_states = read_sequence::<()>(blob, pos + 0x18, e)?;
        let pos = [
            read_uint(blob, pos + 0x8, 2, e).unwrap() as u16,
            read_uint(blob, pos + 0xa, 2, e).unwrap() as u16,
            read_uint(blob, pos + 0xc, 2, e).unwrap() as u16,
        ];
        let x = SActivityGraphNode { node_id, activities, featuring_states, pos };
        assert(x.pos@ =~= seq![pos[0], pos[1], pos[2]]);
        Ok(x)
    }
}

impl FixedRecord for SActivityGraphNode {
    type Model = SActivityGraphNodeModel;

    open spec fn model(&self) -> SActivityGraphNodeModel {
        SActivityGraphNode::model(self)
    }

    open spec fn at_spec(blob: Seq<u8>, pos: int, e: Endian) -> Option<SActivityGraphNodeModel> {
        SActivityGraphNode::at(blob, pos, e)
    }

    open spec fn stride_spec() -> nat {
        SActivityGraphNode::SIZE as nat
    }

    proof fn lemma_past_end(blob: Seq<u8>, pos: int, e: Endian) {
    }

    fn stride() -> (r: usize) {
        SActivityGraphNode::SIZE
    }

    fn read_at(blob: &[u8], pos: usize, e: Endian) -> (r: Result<SActivityGraphNode, DecodeError>) {
        SActivityGraphNode::read(blob, pos, e)
    }
}

/// The rewards of an activity.
#[derive(Debug, Clone, PartialEq, Eq)]
pub struct S80805622 {
    pub rewards: Vec<S80805624>,
}

/// Model of [`S80805622`].
pub ghost struct S80805622Model {
    pub rewards: Seq<<S80805624 as FixedRecord>::Model>,
}

impl S80805622 {
    /// Identifier of the record type.
    pub const TYPE_ID: u32 = 0x80805622;

    /// Declared size of the record.
    pub const SIZE: usize = 0x28;

    /// End of the last field.
    pub const FIELDS_END: usize = 0x10;

    pub open spec fn model(&self) -> S80805622Model {
        S80805622Model {
            rewards: models(self.rewards@),
        }
    }

    /// The model of the record at `pos`, if the blob holds it and its sequences.
    pub open spec fn at(blob: Seq<u8>, pos: int, e: Endian) -> Option<S80805622Model> {
        if pos < 0 || pos + S80805622::FIELDS_END > blob.len() || sequence_at::<S80805624>(blob, pos + 0x0, e) is None {
            None
        } else {
            Some(S80805622Model {
                rewards: sequence_at::<S80805624>(blob, pos + 0x0, e)->0,
            })
        }
    }

    /// Reads the record at `pos`, with the records of its sequences.
    pub fn read(blob: &[u8], pos: usize, e: Endian) -> (r: Result<S80805622, DecodeError>)
        ensures
            match S80805622::at(blob@, pos as int, e) {
                Some(m) => r matches Ok(x) && x.model() == m,
                None => r == Err::<S80805622, DecodeError>(DecodeError::UnexpectedEndOfData),
            },
    {
        if pos > blob.len() || blob.len() - pos < S80805622::FIELDS_END {
            return Err(DecodeError::UnexpectedEndOfData);
        }
        proof {
            lemma_byte_limit_8();
        }
        let rewards = read_sequence::<S80805624>(blob, pos + 0x0, e)?;
        let x = S80805622 { rewards };
        Ok(x)
    }
}

impl FixedRecord for S80805622 {
    type Model = S80805622Model;

    open spec fn model(&self) -> S80805622Model {
        S80805622::model(self)
    }

    open spec fn at_spec(blob: Seq<u8>, pos: int, e: Endian) -> Option<S80805622Model> {
        S80805622::at(blob, pos, e)
    }

    open spec fn stride_spec() -> nat {
        S80805622::SIZE as nat
    }

    proof fn lemma_past_end(blob: Seq<u8>, pos: int, e: Endian) {
    }

    fn stride() -> (r: usize) {
        S80805622::SIZE
    }

    fn read_at(blob: &[u8], pos: usize, e: Endian) -> (r: Result<S80805622, DecodeError>) {
        S80805622::read(blob, pos, e)
    }
}

/// The sockets of an item.
#[derive(Debug, Clone, PartialEq, Eq)]
pub struct S808077C0 {
    pub data: Vec<S808077C3>,
}

/// Model of [`S808077C0`].
pub ghost struct S808077C0Model {
    pub data: Seq<<S808077C3 as FixedRecord>::Model>,
}

impl S808077C0 {
    /// Identifier of the record type.
    pub const TYPE_ID: u32 = 0x808077c0;

    /// Declared size of the record.
    pub const SIZE: usize = 0x20;

    /// End of the last field.
    pub const FIELDS_END: usize = 0x10;

    pub open spec fn model(&self) -> S808077C0Model {
        S808077C0Model {
            data: models(self.data@),
        }
    }

    /// The model of the record at `pos`, if the blob holds it and its sequences.
    pub open spec fn at(blob: Seq<u8>, pos: int, e: Endian) -> Option<S808077C0Model> {
        if pos < 0 || pos + S808077C0::FIELDS_END > blob.len() || sequence_at::<S808077C3>(blob, pos + 0x0, e) is None {
            None
        } else {
            Some(S808077C0Model {
                data: sequence_at::<S808077C3>(blob, pos + 0x0, e)->0,
            })
        }
    }

    /// Reads the record at `pos`, with the records of its sequences.
    pub fn read(blob: &[u8], pos: usize, e: Endian) -> (r: Result<S808077C0, DecodeError>)
        ensures
            match S808077C0::at(blob@, pos as int, e) {
                Some(m) => r matches Ok(x) && x.model() == m,
                None => r == Err::<S808077C0, DecodeError>(DecodeError::UnexpectedEndOfData),
            },
    {
        if pos > blob.len() || blob.len() - pos < S808077C0::FIELDS_END {
            return Err(DecodeError::UnexpectedEndOfData);
        }
        proof {
            lemma_byte_limit_8();
        }
        let data = read_sequence::<S808077C3>(blob, pos + 0x0, e)?;
        let x = S808077C0 { data };
        Ok(x)
    }
}

impl FixedRecord for S808077C0 {
    type Model = S808077C0Model;

    open spec fn model(&self) -> S808077C0Model {
        S808077C0::model(self)
    }

    open spec fn at_spec(blob: Seq<u8>, pos: int, e: Endian) -> Option<S808077C0Model> {
        S808077C0::at(blob, pos, e)
    }

    open spec fn stride_spec() -> nat {
        S808077C0::SIZE as nat
    }

    proof fn lemma_past_end(blob: Seq<u8>, pos: int, e: Endian) {
    }

    fn stride() -> (r: usize) {
        S808077C0::SIZE
    }

    fn read_at(blob: &[u8], pos: usize, e: Endian) -> (r: Result<S808077C0, DecodeError>) {
        S808077C0::read(blob, pos, e)
    }
}

/// An activity graph and its nodes.
#[derive(Debug, Clone, PartialEq, Eq)]
pub struct SActivityGraph {
    pub file_size: u64,
    pub nodes: Vec<SActivityGraphNode>,
}

/// Model of [`SActivityGraph`].
pub ghost struct SActivityGraphModel {
    pub file_size: u64,
    pub nodes: Seq<<SActivityGraphNode as FixedRecord>::Model>,
}

impl SActivityGraph {
    /// Identifier of the record type.
    pub const TYPE_ID: u32 = 0x80805662;

    /// Declared size of the record.
    pub const SIZE: usize = 0x98;

    /// End of the last field.
    pub const FIELDS_END: usize = 0x60;

    pub open spec fn model(&self) -> SActivityGraphModel {
        SActivityGraphModel {
            file_size: self.file_size,
            nodes: models(self.nodes@),
        }
    }

    /// The model of the record at `pos`, if the blob holds it and its sequences.
    pub open spec fn at(blob: Seq<u8>, pos: int, e: Endian) -> Option<SActivityGraphModel> {
        if pos < 0 || pos + SActivityGraph::FIELDS_END > blob.len() || sequence_at::<SActivityGraphNode>(blob, pos + 0x50, e) is None {
            None
        } else {
            Some(SActivityGraphModel {
                file_size: uint_at(blob, pos + 0x0, 8, e)->0 as u64,
                nodes: sequence_at::<SActivityGraphNode>(blob, pos + 0x50, e)->0,
            })
        }
    }

    /// Reads the record at `pos`, with the records of its sequences.
    pub fn read(blob: &[u8], pos: usize, e: Endian) -> (r: Result<SActivityGraph, DecodeError>)
        ensures
            match SActivityGraph::at(blob@, pos as int, e) {
                Some(m) => r matches Ok(x) && x.model() == m,
                None => r == Err::<SActivityGraph, DecodeError>(DecodeError::UnexpectedEndOfData),
            },
    {
        if pos > blob.len() || blob.len() - pos < SActivityGraph::FIELDS_END {
            return Err(DecodeError::UnexpectedEndOfData);
        }
        proof {
            lemma_byte_limit_8();
        }
        let file_size = read_uint(blob, pos + 0x0, 8, e).unwrap();
        let nodes = read_sequence::<SActivityGraphNode>(blob, pos + 0x50, e)?;
        let x = SActivityGraph { file_size, nodes };
        Ok(x)
    }
}

impl FixedRecord for SActivityGraph {
    type Model = SActivityGraphModel;

    open spec fn model(&self) -> SActivityGraphModel {
        SActivityGraph::model(self)
    }

    open spec fn at_spec(blob: Seq<u8>, pos: int, e: Endian) -> Option<SActivityGraphModel> {
        SActivityGraph::at(blob, pos, e)
    }

    open spec fn stride_spec() -> nat {
        SActivityGraph::SIZE as nat
    }

    proof fn lemma_past_end(blob: Seq<u8>, pos: int, e: Endian) {
    }

    fn stride() -> (r: usize) {
        SActivityGraph::SIZE
    }

    fn read_at(blob: &[u8], pos: usize, e: Endian) -> (r: Result<SActivityGraph, DecodeError>) {
        SActivityGraph::read(blob, pos, e)
    }
}

} // verus!
