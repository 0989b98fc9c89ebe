use rustables::align::pad_netlink_object_with_variable_size;
use rustables::attr::{AttrKind, AttributeSchema, AttributeType, NfNetlinkAttributes};
use rustables::error::DecodeError;

fn sample() -> NfNetlinkAttributes {
    let mut inner = NfNetlinkAttributes::new();
    inner.set_attr(1, AttributeType::U16(0x1234));
    inner.set_attr(2, AttributeType::Bytes(vec![1, 2, 3]));
    let mut t = NfNetlinkAttributes::new();
    t.set_attr(5, AttributeType::U64(0x0102030405060708));
    t.set_attr(1, AttributeType::U8(9));
    t.set_attr(3, AttributeType::Nested(inner));
    t.set_attr(2, AttributeType::U32(0xdeadbeef));
    t
}

fn bytes_of(t: &NfNetlinkAttributes) -> Vec<u8> {
    let mut out = Vec::new();
    t.write_payload(&mut out);
    out
}

#[test]
fn padding_rounds_up_to_four() {
    assert_eq!(pad_netlink_object_with_variable_size(0), 0);
    assert_eq!(pad_netlink_object_with_variable_size(1), 4);
    assert_eq!(pad_netlink_object_with_variable_size(4), 4);
    assert_eq!(pad_netlink_object_with_variable_size(5), 8);
    assert_eq!(pad_netlink_object_with_variable_size(7), 8);
}

#[test]
fn set_replaces_and_get_finds() {
    let mut t = NfNetlinkAttributes::new();
    assert!(t.get_attr(4).is_none());
    t.set_attr(4, AttributeType::U32(1));
    t.set_attr(4, AttributeType::U32(2));
    assert_eq!(t.attributes.len(), 1);
    match t.get_attr(4) {
        Some(AttributeType::U32(v)) => assert_eq!(*v, 2),
        other => panic!("unexpected {:?}", other),
    }
}

#[test]
fn attributes_are_kept_in_type_order() {
    let t = sample();
    let codes: Vec<u16> = t.attributes.iter().map(|e| e.0).collect();
    assert_eq!(codes, vec![1, 2, 3, 5]);
}

#[test]
fn single_u32_encoding() {
    let mut t = NfNetlinkAttributes::new();
    t.set_attr(2, AttributeType::U32(0x01020304));
    assert_eq!(bytes_of(&t), vec![8, 0, 2, 0, 1, 2, 3, 4]);
    assert_eq!(t.get_size(), 8);
}

#[test]
fn bytes_are_padded_and_nested_flag_is_set() {
    let mut inner = NfNetlinkAttributes::new();
    inner.set_attr(1, AttributeType::Bytes(vec![0xaa]));
    let mut t = NfNetlinkAttributes::new();
    t.set_attr(7, AttributeType::Nested(inner));
    assert_eq!(
        bytes_of(&t),
        vec![12, 0, 7, 0x80, 5, 0, 1, 0, 0xaa, 0, 0, 0]
    );
}

#[test]
fn computed_size_matches_serialized_length() {
    let t = sample();
    assert_eq!(t.get_size(), bytes_of(&t).len());
    assert_eq!(NfNetlinkAttributes::new().get_size(), 0);
}

#[test]
fn round_trip_with_describing_schema() {
    let t = sample();
    let bytes = bytes_of(&t);
    let schema = AttributeSchema::describing(&t);
    let back = NfNetlinkAttributes::deserialize(&bytes, &schema).unwrap();
    assert_eq!(format!("{:?}", back), format!("{:?}", t));
    assert_eq!(bytes_of(&back), bytes);
}

#[test]
fn unknown_codes_are_kept_opaque() {
    let t = sample();
    let bytes = bytes_of(&t);
    let back = NfNetlinkAttributes::deserialize(&bytes, &AttributeSchema::new()).unwrap();
    match back.get_attr(2) {
        Some(AttributeType::Bytes(b)) => assert_eq!(b, &vec![0xde, 0xad, 0xbe, 0xef]),
        other => panic!("unexpected {:?}", other),
    }
    assert!(matches!(back.get_attr(3), Some(AttributeType::Nested(_))));
    assert_eq!(bytes_of(&back), bytes);
}

#[test]
fn length_past_the_end_is_rejected() {
    let bytes = vec![12, 0, 1, 0, 1, 2, 3, 4];
    let r = NfNetlinkAttributes::deserialize(&bytes, &AttributeSchema::new());
    assert_eq!(r.unwrap_err(), DecodeError::InvalidAttributeLength);
    let r = NfNetlinkAttributes::deserialize(&[1, 0], &AttributeSchema::new());
    assert_eq!(r.unwrap_err(), DecodeError::InvalidAttributeLength);
}

#[test]
fn wrong_value_size_is_rejected() {
    let bytes = vec![6, 0, 2, 0, 1, 2, 0, 0];
    let schema = AttributeSchema { kinds: vec![(2, AttrKind::U32)] };
    let r = NfNetlinkAttributes::deserialize(&bytes, &schema);
    assert_eq!(r.unwrap_err(), DecodeError::InvalidValueLength(2));
}

#[test]
fn decoding_stores_in_type_order() {
    let bytes = vec![5, 0, 3, 0, 9, 0, 0, 0, 5, 0, 1, 0, 8, 0, 0, 0];
    let schema = AttributeSchema { kinds: vec![(1, AttrKind::U8), (3, AttrKind::U8)] };
    let t = NfNetlinkAttributes::deserialize(&bytes, &schema).unwrap();
    let codes: Vec<u16> = t.attributes.iter().map(|e| e.0).collect();
    assert_eq!(codes, vec![1, 3]);
}
