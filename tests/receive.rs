use rustables::error::{DecodeError, QueryError};
use rustables::query::{parse_nlmsg, NlMsg, RecvStatus, Receiver};

fn message(len: u32, ty: u16, flags: u16, seq: u32, payload: &[u8]) -> Vec<u8> {
    let mut v = Vec::new();
    v.extend_from_slice(&len.to_le_bytes());
    v.extend_from_slice(&ty.to_le_bytes());
    v.extend_from_slice(&flags.to_le_bytes());
    v.extend_from_slice(&seq.to_le_bytes());
    v.extend_from_slice(&0u32.to_le_bytes());
    v.extend_from_slice(payload);
    v
}

const MULTI: u16 = 0x2;
const APP_TYPE: u16 = (10 << 8) | 0;

fn app(seq: u32, tag: u8) -> Vec<u8> {
    message(20, APP_TYPE, MULTI, seq, &[2, 0, 0, tag])
}

fn done(seq: u32) -> Vec<u8> {
    message(20, 3, MULTI, seq, &[0, 0, 0, 0])
}

fn error(seq: u32, code: i32) -> Vec<u8> {
    message(20, 2, MULTI, seq, &code.to_le_bytes())
}

#[test]
fn two_messages_then_done() {
    let mut stream = app(1, 7);
    stream.extend(app(2, 8));
    stream.extend(done(3));
    let mut r = Receiver::new(None);
    let step = r.process(&stream);
    assert_eq!(step.status, RecvStatus::Finished);
    assert_eq!(step.messages.len(), 2);
    assert_eq!(step.messages[0], app(1, 7));
    assert_eq!(step.messages[1], app(2, 8));
}

#[test]
fn message_split_across_receives() {
    let first = app(1, 1);
    let second = app(2, 2);
    let mut part1 = first.clone();
    part1.extend_from_slice(&second[..9]);
    let mut part2 = second[9..].to_vec();
    part2.extend(done(3));
    let mut r = Receiver::new(None);
    let s1 = r.process(&part1);
    assert_eq!(s1.status, RecvStatus::NeedMore);
    assert_eq!(s1.messages, vec![first]);
    let s2 = r.process(&part2);
    assert_eq!(s2.status, RecvStatus::Finished);
    assert_eq!(s2.messages, vec![second]);
}

#[test]
fn header_split_across_receives() {
    let m = app(1, 3);
    let mut r = Receiver::new(None);
    let s1 = r.process(&m[..5]);
    assert_eq!(s1.status, RecvStatus::NeedMore);
    assert!(s1.messages.is_empty());
    let mut rest = m[5..].to_vec();
    rest.extend(done(2));
    let s2 = r.process(&rest);
    assert_eq!(s2.status, RecvStatus::Finished);
    assert_eq!(s2.messages, vec![m]);
}

#[test]
fn missing_multi_flag_without_max_seq_is_undecidable() {
    let m = message(20, APP_TYPE, 0, 1, &[2, 0, 0, 0]);
    let mut r = Receiver::new(None);
    let s = r.process(&m);
    assert_eq!(
        s.status,
        RecvStatus::Failed(QueryError::UndecidableMessageTermination)
    );
    assert_eq!(s.messages, vec![m]);
}

#[test]
fn zero_error_code_is_benign() {
    let mut stream = app(1, 1);
    stream.extend(error(2, 0));
    stream.extend(app(3, 3));
    stream.extend(done(4));
    let mut r = Receiver::new(None);
    let s = r.process(&stream);
    assert_eq!(s.status, RecvStatus::Finished);
    assert_eq!(s.messages, vec![app(1, 1), app(3, 3)]);
}

#[test]
fn nonzero_error_code_fails() {
    let mut stream = app(1, 1);
    stream.extend(error(2, -1));
    stream.extend(app(3, 3));
    let mut r = Receiver::new(None);
    let s = r.process(&stream);
    assert_eq!(s.status, RecvStatus::Failed(QueryError::NetlinkError(-1)));
    assert_eq!(s.messages, vec![app(1, 1)]);
}

#[test]
fn max_seq_reached_finishes_without_done() {
    let m1 = message(20, APP_TYPE, 0, 1, &[2, 0, 0, 0]);
    let m2 = message(20, APP_TYPE, 0, 5, &[2, 0, 0, 1]);
    let m3 = message(20, APP_TYPE, 0, 6, &[2, 0, 0, 2]);
    let mut stream = m1.clone();
    stream.extend(m2.clone());
    stream.extend(m3);
    let mut r = Receiver::new(Some(5));
    let s = r.process(&stream);
    assert_eq!(s.status, RecvStatus::Finished);
    assert_eq!(s.messages, vec![m1, m2]);
}

#[test]
fn empty_receive_ends_the_stream() {
    let mut r = Receiver::new(None);
    let s = r.process(&[]);
    assert_eq!(s.status, RecvStatus::Finished);
    assert!(s.messages.is_empty());
}

#[test]
fn noop_is_skipped() {
    let mut stream = message(16, 1, MULTI, 1, &[]);
    stream.extend(app(2, 9));
    stream.extend(done(3));
    let mut r = Receiver::new(None);
    let s = r.process(&stream);
    assert_eq!(s.status, RecvStatus::Finished);
    assert_eq!(s.messages, vec![app(2, 9)]);
}

#[test]
fn short_length_field_is_a_decode_error() {
    let m = message(8, APP_TYPE, MULTI, 1, &[]);
    let mut r = Receiver::new(None);
    let s = r.process(&m);
    assert_eq!(
        s.status,
        RecvStatus::Failed(QueryError::Decode(DecodeError::NlMsgTooSmall))
    );
}

#[test]
fn foreign_subsystem_is_a_decode_error() {
    let m = message(20, 0x0500, MULTI, 1, &[0, 0, 0, 0]);
    let mut r = Receiver::new(None);
    let s = r.process(&m);
    assert_eq!(
        s.status,
        RecvStatus::Failed(QueryError::Decode(DecodeError::UnsupportedType(0x0500)))
    );
}

#[test]
fn parse_classifies_messages() {
    let (h, m) = parse_nlmsg(&error(4, -13)).unwrap();
    assert_eq!(m, NlMsg::Error(-13));
    assert_eq!(h.nlmsg_seq, 4);
    assert_eq!(h.nlmsg_len, 20);
    assert_eq!(parse_nlmsg(&done(1)).unwrap().1, NlMsg::Done);
    assert_eq!(parse_nlmsg(&app(1, 0)).unwrap().1, NlMsg::NfGenMsg);
    assert_eq!(parse_nlmsg(&[0u8; 4]), Err(DecodeError::BufTooSmall));
    let truncated = &app(1, 0)[..18];
    assert_eq!(parse_nlmsg(truncated), Err(DecodeError::BufTooSmall));
}
