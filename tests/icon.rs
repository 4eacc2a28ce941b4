use tachyscope::address::WideHash;
use tachyscope::decoder::{decode_record, DecodeError};
use tachyscope::icon::{
    icon_container_schema, investment_icon_schema, ColorblindMode, IconContainer, InvestmentIcon,
};
use tachyscope::store::TagStore;
use tachyscope::value::Value;
use tachyscope::wire::Endian;
use tachyscope::search::{matches_lowered, matches_search, search_by_name};

fn icon() -> InvestmentIcon {
    InvestmentIcon {
        hash: 1,
        primary: Some(IconContainer { entries: vec![vec![1, 2], vec![], vec![3]] }),
        background: Some(IconContainer { entries: vec![vec![10], vec![11, 12], vec![13]] }),
        overlay: None,
    }
}

#[test]
fn background_textures_follow_the_colorblind_mode() {
    let i = icon();
    assert_eq!(i.get_background_textures(Some(ColorblindMode::Normal)), vec![10]);
    assert_eq!(i.get_background_textures(Some(ColorblindMode::Deuteranopia)), vec![11, 12]);
    assert_eq!(i.get_background_textures(Some(ColorblindMode::Protanopia)), vec![13]);
    // The layer has no fourth entry.
    assert_eq!(i.get_background_textures(Some(ColorblindMode::Tritanopia)), Vec::<u32>::new());
    assert_eq!(i.get_background_textures(None), vec![10, 11, 12, 13]);
}

#[test]
fn primary_and_overlay_take_every_entry() {
    let i = icon();
    assert_eq!(i.get_primary_textures(), vec![1, 2, 3]);
    assert_eq!(i.get_overlay_textures(), Vec::<u32>::new());
}

#[test]
fn name_search_ignores_case() {
    assert!(matches_search(Some("The Last Wish"), "last wish"));
    assert!(matches_search(Some("The Last Wish"), "LAST"));
    assert!(!matches_search(Some("Vault of Glass"), "wish"));
    assert!(matches_search(None, ""));
    assert!(!matches_search(None, "a"));
    assert!(matches_search(Some("anything"), ""));
}

#[test]
fn lowered_search_is_plain_containment() {
    assert!(matches_lowered(Some("abcabd"), "abd"));
    assert!(!matches_lowered(Some("abcabd"), "abe"));
    assert!(!matches_lowered(Some("ab"), "abc"));
    assert!(!matches_lowered(Some("Abc"), "abc"));
}

#[test]
fn search_lists_matching_positions_in_order() {
    let names = vec![
        Some("Crota's End".to_string()),
        None,
        Some("King's Fall".to_string()),
        Some("Crown of Sorrow".to_string()),
    ];
    assert_eq!(search_by_name(&names, "cro"), vec![0, 3]);
    assert_eq!(search_by_name(&names, ""), vec![0, 1, 2, 3]);
    assert_eq!(search_by_name(&names, "fall"), vec![2]);
}

fn put(b: &mut Vec<u8>, pos: usize, bytes: &[u8]) {
    if b.len() < pos + bytes.len() {
        b.resize(pos + bytes.len(), 0);
    }
    b[pos..pos + bytes.len()].copy_from_slice(bytes);
}

/// An icon whose background container at 0x80800B00 has discriminant `d`, and whose
/// container shape at 0x80800C00 holds one entry with the textures 0x80801001, 0x80801002.
fn icon_store(d: u32) -> (TagStore, Vec<u8>) {
    let mut icon = vec![0u8; 0x80];
    put(&mut icon, 0x10, &0x99u32.to_le_bytes());
    put(&mut icon, 0x14, &u32::MAX.to_le_bytes());
    put(&mut icon, 0x20, &0x80800B00u32.to_le_bytes());
    put(&mut icon, 0x24, &0u32.to_le_bytes());
    let mut container = vec![0u8; 0x18];
    put(&mut container, 0x10, &0x80800C00u32.to_le_bytes());
    put(&mut container, 0x14, &d.to_le_bytes());
    let mut shape = vec![0u8; 0x20];
    put(&mut shape, 0, &1u64.to_le_bytes());
    put(&mut shape, 8, &0x18u64.to_le_bytes()); // entry at 0x20
    put(&mut shape, 0x20, &2u64.to_le_bytes());
    put(&mut shape, 0x28, &8u64.to_le_bytes()); // textures at 0x30
    put(&mut shape, 0x30, &0x80801001u32.to_le_bytes());
    put(&mut shape, 0x34, &0x80801002u32.to_le_bytes());
    let mut store = TagStore::new();
    store.insert_blob(0x80800B00, container);
    store.insert_blob(0x80800C00, shape);
    (store, icon)
}

#[test]
fn icon_record_decodes_its_background_container() {
    let (store, icon) = icon_store(0x80803ECD);
    let v = decode_record(&store, &icon, 0, &investment_icon_schema(), Endian::Little).unwrap();
    let Value::Record(fields) = v else { panic!("not a record") };
    assert_eq!(fields[1], Value::Scalar(0x99));
    assert_eq!(fields[2], Value::Reference(WideHash::Hash32(u32::MAX), None));
    assert_eq!(fields[4], Value::Reference(WideHash::Hash32(0), None));
    let textures = Value::Sequence(vec![Value::Record(vec![Value::Sequence(vec![
        Value::Record(vec![Value::Scalar(0x80801001)]),
        Value::Record(vec![Value::Scalar(0x80801002)]),
    ])])]);
    let container = Value::Record(vec![
        Value::Scalar(0),
        Value::Variant(
            WideHash::Hash32(0x80800C00),
            0x80803ECD,
            Some(Box::new(Value::Record(vec![textures]))),
        ),
    ]);
    assert_eq!(fields[3], Value::Reference(WideHash::Hash32(0x80800B00), Some(Box::new(container))));
}

#[test]
fn icon_container_with_unknown_shape_is_refused() {
    let (mut store, icon) = icon_store(0x12345678);
    assert_eq!(
        decode_record(&store, &icon, 0, &investment_icon_schema(), Endian::Little),
        Err(DecodeError::UnknownVariant(0x12345678))
    );
    // The shape's bytes are not needed to refuse it.
    store = {
        let mut s = TagStore::new();
        let mut container = vec![0u8; 0x18];
        put(&mut container, 0x10, &0x80800C00u32.to_le_bytes());
        put(&mut container, 0x14, &0x12345678u32.to_le_bytes());
        s.insert_blob(0x80800B00, container);
        s
    };
    assert_eq!(
        decode_record(&store, &icon, 0, &investment_icon_schema(), Endian::Little),
        Err(DecodeError::UnknownVariant(0x12345678))
    );
    let container = store.read_by_hash32(0x80800B00).unwrap().clone();
    assert_eq!(
        decode_record(&store, &container, 0, &icon_container_schema(), Endian::Little),
        Err(DecodeError::UnknownVariant(0x12345678))
    );
}
