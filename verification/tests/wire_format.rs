use denpie_frontend::pb::{GetByIdRequest, ListFlowCardsRequest, TipsRequestV1};
use prost::encoding::{encode_key, encode_varint, WireType};

#[test]
fn varint_fields_match_the_protobuf_encoding() {
    let req = ListFlowCardsRequest { page_size: 300, page_token: "ab".into() };
    let mut expected: Vec<u8> = Vec::new();
    encode_key(1, WireType::Varint, &mut expected);
    encode_varint(300, &mut expected);
    encode_key(2, WireType::LengthDelimited, &mut expected);
    encode_varint(2, &mut expected);
    expected.extend_from_slice(b"ab");
    assert_eq!(req.encode_to_vec(), expected);
    assert_eq!(ListFlowCardsRequest::decode(&expected), Some(req));
}

#[test]
fn negative_ids_take_ten_bytes() {
    let req = GetByIdRequest { id: -1 };
    let mut expected: Vec<u8> = Vec::new();
    encode_key(1, WireType::Varint, &mut expected);
    encode_varint(u64::MAX, &mut expected);
    assert_eq!(expected.len(), 11);
    assert_eq!(req.encode_to_vec(), expected);
    assert_eq!(GetByIdRequest::decode(&expected), Some(req));
}

#[test]
fn default_fields_are_not_written() {
    assert!(GetByIdRequest { id: 0 }.encode_to_vec().is_empty());
    assert_eq!(GetByIdRequest::decode(&[]), Some(GetByIdRequest { id: 0 }));
}

#[test]
fn packed_ids_and_repeated_strings_round_trip() {
    let req = TipsRequestV1 {
        count: 2,
        topics: vec!["a".into(), String::new(), "ccc".into()],
        tipcard_type: 1,
        exclude_card_ids: vec![1, -2, 300],
        manual_content: "m".into(),
        manual_compressed_content: String::new(),
        manual_image_data: vec!["data:x".into()],
    };
    let bytes = req.encode_to_vec();
    assert_eq!(TipsRequestV1::decode(&bytes), Some(req));
}

#[test]
fn truncated_input_is_rejected() {
    let req = ListFlowCardsRequest { page_size: 300, page_token: "abc".into() };
    let bytes = req.encode_to_vec();
    assert_eq!(ListFlowCardsRequest::decode(&bytes[..bytes.len() - 1]), None);
}

#[test]
fn unknown_groups_are_skipped() {
    // Field 9 opens a group holding a varint and an empty nested group,
    // then field 1 follows.
    let bytes = [75u8, 0x08, 0x05, 19, 20, 76, 0x08, 0x07];
    assert_eq!(GetByIdRequest::decode(&bytes), Some(GetByIdRequest { id: 7 }));
}

#[test]
fn malformed_groups_are_rejected() {
    // An end key with no group open.
    assert_eq!(GetByIdRequest::decode(&[76u8]), None);
    // An end key for another field.
    assert_eq!(GetByIdRequest::decode(&[75u8, 84]), None);
    // A group that never ends.
    assert_eq!(GetByIdRequest::decode(&[75u8, 0x08, 0x05]), None);
    // A group in place of a known scalar field.
    assert_eq!(GetByIdRequest::decode(&[11u8, 12]), None);
}

#[test]
fn groups_nest_only_to_the_recursion_limit() {
    let mut shallow: Vec<u8> = Vec::new();
    for _ in 0..100 {
        shallow.push(75);
    }
    for _ in 0..100 {
        shallow.push(76);
    }
    assert_eq!(GetByIdRequest::decode(&shallow), Some(GetByIdRequest { id: 0 }));
    let mut deep: Vec<u8> = Vec::new();
    for _ in 0..101 {
        deep.push(75);
    }
    for _ in 0..101 {
        deep.push(76);
    }
    assert_eq!(GetByIdRequest::decode(&deep), None);
}
