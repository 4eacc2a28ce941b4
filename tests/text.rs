use tachyscope::address::WideHash;
use tachyscope::decoder::DecodeError;
use tachyscope::store::TagStore;
use tachyscope::text::{
    assemble_combination, assemble_strings, load_language, IndexedString, Language, FNV1_PRIME,
};
use tachyscope::wire::Endian;

fn put(b: &mut Vec<u8>, pos: usize, bytes: &[u8]) {
    if b.len() < pos + bytes.len() {
        b.resize(pos + bytes.len(), 0);
    }
    b[pos..pos + bytes.len()].copy_from_slice(bytes);
}

/// String data with one combination of two parts: the literal "Hello " and a
/// substitution of 0xAABBCCDD.
fn hello_blob() -> Vec<u8> {
    let mut b = vec![0u8; 0x48];
    put(&mut b, 0x38, &1u64.to_le_bytes());
    put(&mut b, 0x40, &8u64.to_le_bytes()); // combination at 0x48
    put(&mut b, 0x48, &0x10u64.to_le_bytes()); // parts at 0x58
    put(&mut b, 0x50, &2i64.to_le_bytes());
    // Part 0 at 0x58: literal text at 0x98.
    put(&mut b, 0x60, &0x38u64.to_le_bytes());
    put(&mut b, 0x68, &FNV1_PRIME.to_le_bytes());
    put(&mut b, 0x6C, &6u16.to_le_bytes());
    put(&mut b, 0x6E, &6u16.to_le_bytes());
    // Part 1 at 0x78: a substitution.
    put(&mut b, 0x88, &0xAABBCCDDu32.to_le_bytes());
    put(&mut b, 0x98, b"Hello ");
    b
}

#[test]
fn literal_and_substitution_parts_are_concatenated() {
    let m = assemble_strings(&hello_blob(), Endian::Little, &vec![0x1234]).unwrap();
    assert_eq!(m.len(), 1);
    assert_eq!(m.get(&0x1234).map(|s| s.as_str()), Some("Hello <AABBCCDD>"));
}

#[test]
fn placeholder_digits_are_upper_case_and_padded() {
    let mut b = hello_blob();
    put(&mut b, 0x88, &0x0000_0A0Fu32.to_le_bytes());
    assert_eq!(assemble_combination(&b, Endian::Little, 0x48).unwrap(), "Hello <00000A0F>");
}

#[test]
fn invalid_utf8_is_replaced() {
    let mut b = hello_blob();
    put(&mut b, 0x98, &[0x48, 0xFF, 0x69, 0x20, 0x20, 0x20]);
    assert_eq!(assemble_combination(&b, Endian::Little, 0x48).unwrap(), "H\u{FFFD}i   <AABBCCDD>");
}

#[test]
fn negative_part_count_gives_an_empty_string() {
    let mut b = hello_blob();
    put(&mut b, 0x50, &(-1i64).to_le_bytes());
    assert_eq!(assemble_combination(&b, Endian::Little, 0x48).unwrap(), "");
}

#[test]
fn parallel_tables_of_different_lengths_are_refused() {
    let mut b = vec![0u8; 0x48];
    put(&mut b, 0x38, &4u64.to_le_bytes());
    put(&mut b, 0x40, &8u64.to_le_bytes());
    let hashes = vec![1, 2, 3, 4, 5];
    assert_eq!(
        assemble_strings(&b, Endian::Little, &hashes),
        Err(DecodeError::TableSizeMismatch(5, 4))
    );
}

#[test]
fn literal_past_the_end_is_refused() {
    let mut b = hello_blob();
    put(&mut b, 0x6C, &7u16.to_le_bytes());
    assert_eq!(
        assemble_strings(&b, Endian::Little, &vec![0x1234]),
        Err(DecodeError::UnexpectedEndOfData)
    );
}

#[test]
fn later_equal_hash_replaces_earlier_string() {
    // Two combinations: at 0x48 one part (a substitution of 0x77) at 0x68, at 0x58 no parts.
    let mut c = vec![0u8; 0x88];
    put(&mut c, 0x38, &2u64.to_le_bytes());
    put(&mut c, 0x40, &8u64.to_le_bytes());
    put(&mut c, 0x48, &0x20u64.to_le_bytes());
    put(&mut c, 0x50, &1i64.to_le_bytes());
    put(&mut c, 0x78, &0x77u32.to_le_bytes());
    let m = assemble_strings(&c, Endian::Little, &vec![9, 9]).unwrap();
    assert_eq!(m.len(), 1);
    assert_eq!(m.get(&9).map(|s| s.as_str()), Some(""));
    let m = assemble_strings(&c, Endian::Little, &vec![9, 10]).unwrap();
    assert_eq!(m.get(&9).map(|s| s.as_str()), Some("<00000077>"));
    assert_eq!(m.get(&10).map(|s| s.as_str()), Some(""));
}

/// A language table naming one meaning hash, whose English data is `data`.
fn language_table(data: u32) -> Vec<u8> {
    let mut t = vec![0u8; 0x4C];
    put(&mut t, 0x8, &1u64.to_le_bytes());
    put(&mut t, 0x10, &0x3Cu64.to_le_bytes()); // hashes at 0x4C
    put(&mut t, 0x18, &data.to_le_bytes());
    put(&mut t, 0x1C, &u32::MAX.to_le_bytes());
    put(&mut t, 0x4C, &0x1234u32.to_le_bytes());
    t
}

#[test]
fn language_strings_load_through_the_store() {
    let mut store = TagStore::new();
    store.insert_blob(0x80800010, language_table(0x80800020));
    store.insert_blob(0x80800020, hello_blob());
    let m = load_language(&store, WideHash::Hash32(0x80800010), Language::English, Endian::Little).unwrap();
    assert_eq!(m.get(&0x1234).map(|s| s.as_str()), Some("Hello <AABBCCDD>"));
}

#[test]
fn missing_language_data_fails_that_language_only() {
    let mut store = TagStore::new();
    store.insert_blob(0x80800010, language_table(0x80800020));
    store.insert_blob(0x80800020, hello_blob());
    assert_eq!(
        load_language(&store, WideHash::Hash32(0x80800010), Language::Japanese, Endian::Little),
        Err(DecodeError::StoreMiss(WideHash::Hash32(u32::MAX)))
    );
    assert!(load_language(&store, WideHash::Hash32(0x80800010), Language::English, Endian::Little).is_ok());
}

#[test]
fn missing_language_table_is_a_store_miss() {
    let store = TagStore::new();
    assert_eq!(
        load_language(&store, WideHash::Hash32(0x80800010), Language::English, Endian::Little),
        Err(DecodeError::StoreMiss(WideHash::Hash32(0x80800010)))
    );
    assert_eq!(
        load_language(&store, WideHash::Hash64(55), Language::English, Endian::Little),
        Err(DecodeError::StoreMiss(WideHash::Hash64(55)))
    );
}

#[test]
fn language_positions() {
    assert_eq!(Language::English.index(), 0);
    assert_eq!(Language::Russian.index(), 12);
    assert_eq!(Language::from_repr(5), Some(Language::SpanishLatAm));
    assert_eq!(Language::from_repr(13), None);
}

#[test]
fn indexed_string_validity() {
    assert!(IndexedString(3, 7).valid());
    assert!(!IndexedString(0xFFFF, 7).valid());
    assert!(IndexedString(0xFFFF, FNV1_PRIME).valid());
}

#[test]
fn indexed_string_lookup() {
    let mut store = TagStore::new();
    store.insert_blob(0x80800010, language_table(0x80800020));
    store.insert_blob(0x80800020, hello_blob());
    let tables = vec![WideHash::Hash32(0), WideHash::Hash32(0x80800010)];
    let e = Endian::Little;
    assert_eq!(
        IndexedString(1, 0x1234).get(&store, &tables, Language::English, e),
        Some("Hello <AABBCCDD>".to_string())
    );
    assert_eq!(IndexedString(1, 0x9999).get(&store, &tables, Language::English, e), None);
    assert_eq!(IndexedString(0, 0x1234).get(&store, &tables, Language::English, e), None);
    assert_eq!(IndexedString(2, 0x1234).get(&store, &tables, Language::English, e), None);
    assert_eq!(IndexedString(0xFFFF, 0x1234).get(&store, &tables, Language::English, e), None);
}

#[test]
fn indexed_string_reads_two_words() {
    let mut b = Vec::new();
    put(&mut b, 0, &5u32.to_be_bytes());
    put(&mut b, 4, &6u32.to_be_bytes());
    assert_eq!(IndexedString::read(&b, 0, Endian::Big), Ok(IndexedString(5, 6)));
    assert_eq!(IndexedString::read(&b, 1, Endian::Big), Err(DecodeError::UnexpectedEndOfData));
}
