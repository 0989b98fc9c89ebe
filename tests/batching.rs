use rustables::error::DecodeError;
use rustables::batch::{batch_page_size, default_batch_page_size, Batch};
use rustables::attr::NfNetlinkAttributes;
use rustables::chain::ChainType;
use rustables::expr::Bitwise;
use rustables::nlmsg::NfNetlinkWriter;
use rustables::query::get_list_of_objects;
use rustables::table::Table;
use rustables::{MsgType, ProtocolFamily};

fn header(len: u32, ty: u16, flags: u16, seq: u32) -> Vec<u8> {
    let mut v = Vec::new();
    v.extend_from_slice(&len.to_le_bytes());
    v.extend_from_slice(&ty.to_le_bytes());
    v.extend_from_slice(&flags.to_le_bytes());
    v.extend_from_slice(&seq.to_le_bytes());
    v.extend_from_slice(&0u32.to_le_bytes());
    v
}

fn all_bytes(b: Batch) -> Option<Vec<u8>> {
    let f = b.finalize()?;
    let mut out = Vec::new();
    let mut it = f.iter();
    while let Some(c) = it.next() {
        out.extend_from_slice(c);
    }
    Some(out)
}

fn named_table(name: &str) -> Table {
    let mut t = Table::new(ProtocolFamily::Inet);
    t.set_name(name);
    t
}

#[test]
fn header_is_written_and_length_tracks_payload() {
    let mut w = NfNetlinkWriter::new(Vec::new());
    w.write_header(0, ProtocolFamily::Ipv4, 0x4, 7, Some(3));
    w.add_data_zeroed(3);
    w.add_data_zeroed(8);
    w.finalize_writing_object();
    let buf = w.extract_buffer();
    let mut expected = header(20 + 4 + 8, 0x0a00, 0x5, 7);
    expected.extend_from_slice(&[2, 0, 0, 3]);
    expected.extend_from_slice(&[0; 12]);
    assert_eq!(buf, expected);
}

#[test]
fn add_data_pads_and_counts() {
    let mut w = NfNetlinkWriter::new(Vec::new());
    w.write_header(1, ProtocolFamily::Unspec, 0, 0, None);
    w.add_data(&[9, 9, 9, 9, 9]);
    let buf = w.extract_buffer();
    assert_eq!(buf.len(), 28);
    assert_eq!(&buf[0..4], &28u32.to_le_bytes());
    assert_eq!(&buf[20..28], &[9, 9, 9, 9, 9, 0, 0, 0]);
}

#[test]
fn empty_batch_finalizes_to_nothing() {
    let b = Batch::with_page_size(4096);
    assert!(b.finalize().is_none());
}

#[test]
fn batch_is_bracketed() {
    let mut b = Batch::with_page_size(4096);
    named_table("filter").add_to_batch(&mut b);
    let bytes = all_bytes(b).unwrap();
    assert_eq!(&bytes[..16], &header(16, 0x10, 0x1, 0)[..]);
    assert_eq!(&bytes[bytes.len() - 16..], &header(16, 0x11, 0x1, 2)[..]);
}

#[test]
fn table_message_bytes() {
    let mut b = Batch::with_page_size(4096);
    named_table("ab").add_to_batch(&mut b);
    let bytes = all_bytes(b).unwrap();
    let mut msg = header(28, 0x0a00, 0x1 | 0x4 | 0x400, 1);
    msg.extend_from_slice(&[1, 0, 0, 0]);
    msg.extend_from_slice(&[7, 0, 1, 0, b'a', b'b', 0, 0]);
    assert_eq!(&bytes[16..16 + 28], &msg[..]);
    assert_eq!(bytes.len(), 16 + 28 + 16);
}

#[test]
fn add_iter_numbers_messages_in_order() {
    let mut b = Batch::with_page_size(4096);
    let tables = vec![named_table("a"), named_table("b")];
    b.add_iter(&tables, MsgType::Del);
    let bytes = all_bytes(b).unwrap();
    assert_eq!(bytes.len(), 16 + 28 + 28 + 16);
    assert_eq!(&bytes[16 + 4..16 + 6], &(0x0a02u16).to_le_bytes());
    assert_eq!(&bytes[16 + 8..16 + 12], &1u32.to_le_bytes());
    assert_eq!(&bytes[44 + 8..44 + 12], &2u32.to_le_bytes());
    assert_eq!(&bytes[72 + 8..72 + 12], &3u32.to_le_bytes());
}

#[test]
fn chunks_follow_page_size() {
    let mut b = Batch::with_page_size(10);
    named_table("x").add_to_batch(&mut b);
    let f = b.finalize().unwrap();
    let mut it = f.iter();
    let mut sizes = Vec::new();
    while let Some(c) = it.next() {
        sizes.push(c.len());
    }
    assert_eq!(sizes, vec![10, 10, 10, 10, 10, 10]);
    assert!(it.next().is_none());
}

#[test]
fn page_size_computation() {
    assert_eq!(batch_page_size(Some(4096)), 131072);
    assert_eq!(batch_page_size(None), 131072);
    assert_eq!(batch_page_size(Some(0)), 131072);
    assert_eq!(batch_page_size(Some(16384)), 524288);
    let d = default_batch_page_size();
    assert!(d > 0 && d % 32 == 0);
}

#[test]
fn dump_request_without_filter() {
    let r = get_list_of_objects(1, 5, None::<&NfNetlinkAttributes>, ProtocolFamily::Unspec).unwrap();
    let mut expected = header(20, 0x0a01, 0x301, 5);
    expected.extend_from_slice(&[0, 0, 0, 0]);
    assert_eq!(r, expected);
}

#[test]
fn dump_request_with_filter() {
    let t = named_table("ab");
    let attrs = t.to_attributes();
    let r = get_list_of_objects(1, 0, Some(&attrs), ProtocolFamily::Inet).unwrap();
    let mut expected = header(28, 0x0a01, 0x301, 0);
    expected.extend_from_slice(&[1, 0, 0, 0]);
    expected.extend_from_slice(&[7, 0, 1, 0, b'a', b'b', 0, 0]);
    assert_eq!(r, expected);
}

#[test]
fn table_accessors() {
    let mut t = Table::new(ProtocolFamily::Ipv6);
    assert_eq!(t.get_family(), ProtocolFamily::Ipv6);
    t.set_family(ProtocolFamily::Bridge);
    t.set_flags(1);
    t.set_userdata(vec![1, 2]);
    t.set_name("n");
    assert_eq!(t.get_family(), ProtocolFamily::Bridge);
    assert_eq!(t.get_flags(), Some(1));
    assert_eq!(t.get_name(), Some(&vec![b'n']));
    let codes: Vec<u16> = t.to_attributes().attributes.iter().map(|e| e.0).collect();
    assert_eq!(codes, vec![1, 2, 6]);
}

#[test]
fn chain_type_names() {
    assert_eq!(ChainType::Filter.as_c_str(), b"filter\0".to_vec());
    assert_eq!(ChainType::Route.as_c_str(), b"route\0".to_vec());
    assert_eq!(ChainType::Nat.as_c_str(), b"nat\0".to_vec());
}

#[test]
fn bitwise_keeps_mask_and_xor() {
    let b = Bitwise::new(vec![0xff, 0], vec![0, 1]);
    assert_eq!(b.mask, vec![0xff, 0]);
    assert_eq!(b.xor, vec![0, 1]);
}

#[test]
fn table_decoded_from_reply() {
    let mut msg = header(36, 0x0a00, 0x2, 1);
    msg.extend_from_slice(&[10, 0, 0, 0]);
    msg.extend_from_slice(&[7, 0, 1, 0, b'a', b'b', 0, 0]);
    msg.extend_from_slice(&[8, 0, 2, 0, 0, 0, 0, 1]);
    let t = Table::from_message(&msg).unwrap();
    assert_eq!(t.get_family(), ProtocolFamily::Ipv6);
    assert_eq!(t.get_name(), Some(&b"ab".to_vec()));
    assert_eq!(t.get_flags(), Some(1));
}

#[test]
fn table_decoding_errors() {
    assert_eq!(Table::from_message(&[0; 10]), Err(DecodeError::BufTooSmall));
    let mut msg = header(20, 0x0a00, 0x2, 1);
    msg.extend_from_slice(&[4, 0, 0, 0]);
    assert_eq!(Table::from_message(&msg), Err(DecodeError::UnknownProtocolFamily(4)));
    let mut msg = header(24, 0x0a00, 0x2, 1);
    msg.extend_from_slice(&[2, 0, 0, 0]);
    msg.extend_from_slice(&[6, 0, 2, 0]);
    assert_eq!(Table::from_message(&msg), Err(DecodeError::InvalidAttributeLength));
}
