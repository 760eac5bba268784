use randomizer_client::codec::{
    decode_pairs, decode_slot_at, encode_pairs, i32_from_le_at, i32_to_le, u16_from_le_at,
    u16_to_le, ExchangeHeader,
};

#[test]
fn u16_round_trip() {
    let b = u16_to_le(0x1234);
    assert_eq!(b, vec![0x34, 0x12]);
    assert_eq!(u16_from_le_at(&b, 0), 0x1234);
}

#[test]
fn i32_round_trip_positive() {
    let b = i32_to_le(43);
    assert_eq!(b, vec![0x2B, 0x00, 0x00, 0x00]);
    assert_eq!(i32_from_le_at(&b, 0), 43);
}

#[test]
fn i32_round_trip_negative() {
    let b = i32_to_le(-2);
    assert_eq!(b, vec![0xFE, 0xFF, 0xFF, 0xFF]);
    assert_eq!(i32_from_le_at(&b, 0), -2);
}

#[test]
fn i32_extremes() {
    assert_eq!(i32_from_le_at(&i32_to_le(i32::MAX), 0), i32::MAX);
    assert_eq!(i32_from_le_at(&i32_to_le(i32::MIN), 0), i32::MIN);
}

#[test]
fn header_encode_decode_identity() {
    let h = ExchangeHeader {
        read_ptr: 1,
        write_ptr: 3,
        word_a: 0xBEEF,
        word_b: 0,
        event_id: 41,
    };
    let b = h.encode();
    assert_eq!(b.len(), 12);
    let d = ExchangeHeader::decode(&b);
    assert_eq!(d.read_ptr, 1);
    assert_eq!(d.write_ptr, 3);
    assert_eq!(d.word_a, 0xBEEF);
    assert_eq!(d.word_b, 0);
    assert_eq!(d.event_id, 41);
}

#[test]
fn header_decode_negative_event_id() {
    let h = ExchangeHeader {
        read_ptr: 0,
        write_ptr: 0,
        word_a: 0,
        word_b: 0,
        event_id: -1,
    };
    let d = ExchangeHeader::decode(&h.encode());
    assert_eq!(d.event_id, -1);
}

#[test]
fn pairs_encode_concatenates_in_order() {
    let pairs = vec![(1u16, 0x55u16), (2u16, 0x66u16)];
    let b = encode_pairs(&pairs);
    assert_eq!(b, vec![0x01, 0x00, 0x55, 0x00, 0x02, 0x00, 0x66, 0x00]);
}

#[test]
fn pairs_decode_inverts_encode_given_count() {
    let pairs = vec![(1u16, 0x55u16), (2u16, 0x66u16), (0xFFFF, 0)];
    let b = encode_pairs(&pairs);
    let d = decode_pairs(&b, 3);
    assert_eq!(d, pairs);
}

#[test]
fn pairs_empty() {
    let pairs: Vec<(u16, u16)> = Vec::new();
    let b = encode_pairs(&pairs);
    assert!(b.is_empty());
    assert!(decode_pairs(&b, 0).is_empty());
}

#[test]
fn outbound_slot_decode() {
    let b = vec![0x02, 0x00, 0x77, 0x00, 0x05, 0x00, 0x00, 0x00];
    let (to, item, idx) = decode_slot_at(&b, 0);
    assert_eq!(to, 2);
    assert_eq!(item, 0x77);
    assert_eq!(idx, 5);
}
