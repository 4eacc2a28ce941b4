use tachyscope::address::WideHash;
use tachyscope::decoder::{decode_record, DecodeError};
use tachyscope::value::Value;
use tachyscope::pixel_format::DxgiFormat;
use tachyscope::records::{
    read_sequence, SActivityGraph, SActivityGraphNode, S80805622, S80805626, S808077C0, S80805691, S80807300, S80807386, S808059EE, S808072F0, S808072FE,
    S808077C3,
};
use tachyscope::store::TagStore;
use tachyscope::text::IndexedString;
use tachyscope::texture::{texture_payload, TextureHeader};
use tachyscope::wire::Endian;

fn put(b: &mut Vec<u8>, pos: usize, bytes: &[u8]) {
    if b.len() < pos + bytes.len() {
        b.resize(pos + bytes.len(), 0);
    }
    b[pos..pos + bytes.len()].copy_from_slice(bytes);
}

#[test]
fn phase_record_reads_three_words() {
    let mut b = Vec::new();
    put(&mut b, 0, &1u32.to_le_bytes());
    put(&mut b, 4, &2u32.to_le_bytes());
    put(&mut b, 8, &3u32.to_le_bytes());
    assert_eq!(
        S80807300::read(&b, 0, Endian::Little),
        Ok(S80807300 { phase_hash: 1, unlock_index: 2, unk_hash: 3 })
    );
    assert_eq!(S80807300::read(&b, 4, Endian::Little), Err(DecodeError::UnexpectedEndOfData));
}

#[test]
fn matchmaking_record() {
    let mut b = vec![0u8; 0x58];
    put(&mut b, 0, &4u32.to_le_bytes());
    put(&mut b, 4, &5u32.to_le_bytes());
    put(&mut b, 0xC, &1u32.to_le_bytes());
    put(&mut b, 0x10, &3u32.to_le_bytes());
    put(&mut b, 0x14, &6u32.to_le_bytes());
    let r = S808072F0::read(&b, 0, Endian::Little).unwrap();
    assert_eq!(r.unk0, IndexedString(4, 5));
    assert_eq!((r.min_party, r.max_party, r.max_players), (1, 3, 6));
}

#[test]
fn signed_fields_keep_their_sign() {
    let mut b = vec![0u8; 0x18];
    put(&mut b, 0, &(-3i16).to_le_bytes());
    put(&mut b, 4, &7u32.to_le_bytes());
    put(&mut b, 8, &8u32.to_le_bytes());
    let r = S808059EE::read(&b, 0, Endian::Little).unwrap();
    assert_eq!(r.icon_index, -3);
    assert_eq!(r.name, IndexedString(7, 8));

    let mut s = vec![0u8; 0x30];
    put(&mut s, 0, &(-100i32).to_le_bytes());
    put(&mut s, 4, &250i32.to_le_bytes());
    put(&mut s, 0x28, &0x0102030405060708u64.to_le_bytes());
    let r = S80807386::read(&s, 0, Endian::Little).unwrap();
    assert_eq!((r.stat_type, r.stat_value, r.unk28), (-100, 250, 0x0102030405060708));
}

fn header_bytes(format: u32, large: u32) -> Vec<u8> {
    let mut b = vec![0u8; 0x40];
    put(&mut b, 0, &0x200u32.to_le_bytes());
    put(&mut b, 4, &format.to_le_bytes());
    put(&mut b, 0x22, &64u16.to_le_bytes());
    put(&mut b, 0x24, &32u16.to_le_bytes());
    put(&mut b, 0x26, &1u16.to_le_bytes());
    put(&mut b, 0x28, &1u16.to_le_bytes());
    put(&mut b, 0x3c, &large.to_le_bytes());
    b
}

#[test]
fn texture_header_fields() {
    let h = TextureHeader::read(&header_bytes(71, 0xFFFF_FFFF), 0, Endian::Little).unwrap();
    assert_eq!(h.data_size, 0x200);
    assert_eq!(h.format, DxgiFormat::BC1_UNORM);
    assert_eq!((h.width, h.height, h.depth, h.array_size), (64, 32, 1, 1));
    assert_eq!(h.large_buffer, 0xFFFF_FFFF);
    assert_eq!(h.format.calculate_pitch(h.width as usize, h.height as usize), Ok((128, 1024)));
}

#[test]
fn texture_header_with_reserved_format_is_refused() {
    assert_eq!(
        TextureHeader::read(&header_bytes(200, 0), 0, Endian::Little),
        Err(DecodeError::FormatOutOfRange(200))
    );
    assert_eq!(
        TextureHeader::read(&header_bytes(71, 0)[..0x3F], 0, Endian::Little),
        Err(DecodeError::UnexpectedEndOfData)
    );
}

#[test]
fn texture_payload_puts_large_buffer_first() {
    let mut store = TagStore::new();
    store.insert_blob(0x80806000, vec![1, 2, 3]);
    store.insert_blob(0x80806001, vec![4, 5]);
    let with_large = TextureHeader::read(&header_bytes(28, 0x80806000), 0, Endian::Little).unwrap();
    assert_eq!(texture_payload(&store, &with_large, 0x80806001), Ok(vec![1, 2, 3, 4, 5]));
    let without = TextureHeader::read(&header_bytes(28, u32::MAX), 0, Endian::Little).unwrap();
    assert_eq!(texture_payload(&store, &without, 0x80806001), Ok(vec![4, 5]));
    assert_eq!(
        texture_payload(&store, &without, 0x80806002),
        Err(DecodeError::StoreMiss(WideHash::Hash32(0x80806002)))
    );
    let missing_large = TextureHeader::read(&header_bytes(28, 0x80806003), 0, Endian::Little).unwrap();
    assert_eq!(
        texture_payload(&store, &missing_large, 0x80806001),
        Err(DecodeError::StoreMiss(WideHash::Hash32(0x80806003)))
    );
}

#[test]
fn generic_decoder_agrees_with_typed_reader() {
    let mut b = vec![0u8; 0x58];
    put(&mut b, 0, &4u32.to_le_bytes());
    put(&mut b, 4, &5u32.to_le_bytes());
    put(&mut b, 8, &9u32.to_le_bytes());
    put(&mut b, 0x14, &6u32.to_le_bytes());
    let store = TagStore::new();
    let v = decode_record(&store, &b, 0, &S808072F0::schema(), Endian::Little).unwrap();
    assert_eq!(
        v,
        Value::Record(vec![
            Value::Record(vec![Value::Scalar(4), Value::Scalar(5)]),
            Value::Scalar(9),
            Value::Scalar(0),
            Value::Scalar(0),
            Value::Scalar(6),
        ])
    );
    let mut s = vec![0u8; 0x18];
    put(&mut s, 0, &(-3i16).to_le_bytes());
    let v = decode_record(&store, &s, 0, &S808059EE::schema(), Endian::Little).unwrap();
    let r = S808059EE::read(&s, 0, Endian::Little).unwrap();
    assert_eq!(r.icon_index, -3);
    assert_eq!(
        v,
        Value::Record(vec![
            Value::Scalar(0xFFFD),
            Value::Record(vec![Value::Scalar(0), Value::Scalar(0)]),
            Value::Record(vec![Value::Scalar(0), Value::Scalar(0)]),
        ])
    );
}

#[test]
fn record_with_a_sequence_of_records() {
    let mut b = vec![0u8; 0x28];
    put(&mut b, 8, &2u64.to_le_bytes());
    put(&mut b, 0x10, &0x18u64.to_le_bytes()); // first phase at 0x28
    for (i, w) in [1u32, 2, 3, 4, 5, 6].iter().enumerate() {
        put(&mut b, 0x28 + 4 * i, &w.to_le_bytes());
    }
    let r = S808072FE::read(&b, 0, Endian::Little).unwrap();
    assert_eq!(
        r.phases,
        vec![
            S80807300 { phase_hash: 1, unlock_index: 2, unk_hash: 3 },
            S80807300 { phase_hash: 4, unlock_index: 5, unk_hash: 6 },
        ]
    );
    // One more phase than the bytes hold.
    put(&mut b, 8, &3u64.to_le_bytes());
    assert_eq!(S808072FE::read(&b, 0, Endian::Little), Err(DecodeError::UnexpectedEndOfData));
}

#[test]
fn sequence_of_empty_elements_keeps_its_count() {
    let mut b = vec![0u8; 0x30];
    put(&mut b, 0, &3u64.to_le_bytes());
    put(&mut b, 8, &0u64.to_le_bytes());
    let r = S80805691::read(&b, 0, Endian::Little).unwrap();
    assert_eq!(r.unk0.len(), 3);
    assert!(r.unk10.is_empty() && r.unk20.is_empty());
}

#[test]
fn socket_record_with_plug_items() {
    let mut b = vec![0u8; 0x58];
    put(&mut b, 0, &(-1i16).to_le_bytes());
    put(&mut b, 6, &7i16.to_le_bytes());
    put(&mut b, 0x48, &1u64.to_le_bytes());
    put(&mut b, 0x50, &8u64.to_le_bytes()); // plug item at 0x58
    put(&mut b, 0x58 + 0x20, &42i16.to_le_bytes());
    put(&mut b, 0x58 + 0x3F, &[0]);
    let r = S808077C3::read(&b, 0, Endian::Little).unwrap();
    assert_eq!((r.socket_index, r.single_initial_item_index), (-1, 7));
    assert_eq!(r.plug_items.len(), 1);
    assert_eq!(r.plug_items[0].plug_index, 42);
}

#[test]
fn sequence_reader_uses_the_declared_stride() {
    let mut b = vec![0u8; 0x10];
    put(&mut b, 0, &2u64.to_le_bytes());
    put(&mut b, 8, &8u64.to_le_bytes()); // first item at 0x10, stride 0x20
    put(&mut b, 0x10, &5i16.to_le_bytes());
    put(&mut b, 0x30, &6i16.to_le_bytes());
    let items: Vec<S80805626> = read_sequence(&b, 0, Endian::Little).unwrap();
    assert_eq!(items, vec![S80805626 { item_index: 5 }, S80805626 { item_index: 6 }]);
}

#[test]
fn graph_node_position_overlaps_its_activity_count() {
    let mut b = vec![0u8; 0x28];
    put(&mut b, 0, &0x51u32.to_le_bytes());
    put(&mut b, 8, &3u64.to_le_bytes());
    put(&mut b, 0x10, &0u64.to_le_bytes());
    let n = SActivityGraphNode::read(&b, 0, Endian::Little).unwrap();
    assert_eq!(n.node_id, 0x51);
    assert_eq!(n.pos, [3, 0, 0]);
    assert_eq!(n.activities.len(), 3);
    assert!(n.featuring_states.is_empty());
}

#[test]
fn rewards_hold_their_items() {
    // Rewards at 0x28 (stride 0x18), each with items (stride 0x20) further on.
    let mut b = vec![0u8; 0x28];
    put(&mut b, 0, &2u64.to_le_bytes());
    put(&mut b, 8, &0x20u64.to_le_bytes());
    // Reward 0 at 0x28: unk0 = 7, one item at 0x58.
    put(&mut b, 0x28, &7u64.to_le_bytes());
    put(&mut b, 0x30, &1u64.to_le_bytes());
    put(&mut b, 0x38, &0x20u64.to_le_bytes());
    // Reward 1 at 0x40: no items.
    put(&mut b, 0x40, &8u64.to_le_bytes());
    put(&mut b, 0x48, &0u64.to_le_bytes());
    put(&mut b, 0x58, &11i16.to_le_bytes());
    put(&mut b, 0x77, &[0]);
    let r = S80805622::read(&b, 0, Endian::Little).unwrap();
    assert_eq!(r.rewards.len(), 2);
    assert_eq!(r.rewards[0].unk0, 7);
    assert_eq!(r.rewards[0].items, vec![S80805626 { item_index: 11 }]);
    assert_eq!(r.rewards[1].unk0, 8);
    assert!(r.rewards[1].items.is_empty());
}

#[test]
fn nested_sequence_past_the_end_fails_the_whole_record() {
    let mut b = vec![0u8; 0x20];
    put(&mut b, 0, &1u64.to_le_bytes());
    put(&mut b, 8, &0x10u64.to_le_bytes()); // one socket at 0x18, which needs 0x58 bytes
    assert_eq!(S808077C0::read(&b, 0, Endian::Little), Err(DecodeError::UnexpectedEndOfData));
}

#[test]
fn activity_graph_with_one_node() {
    let mut b = vec![0u8; 0x98];
    put(&mut b, 0, &0x1234u64.to_le_bytes());
    put(&mut b, 0x50, &1u64.to_le_bytes());
    put(&mut b, 0x58, &0x40u64.to_le_bytes()); // node at 0x98
    put(&mut b, 0x98, &9u32.to_le_bytes());
    put(&mut b, 0x98 + 0x113, &[0]);
    let g = SActivityGraph::read(&b, 0, Endian::Little).unwrap();
    assert_eq!(g.file_size, 0x1234);
    assert_eq!(g.nodes.len(), 1);
    assert_eq!(g.nodes[0].node_id, 9);
    assert_eq!(g.nodes[0].pos, [0, 0, 0]);
}
