//! Reassembling and classifying the kernel's replies.
use vstd::prelude::*;
use vstd::slice::{slice_subrange, slice_to_vec};

use crate::align::{align4, lemma_align4, NLMSGHDR_SIZE};
use crate::bytes::{get_le16, get_le32, read_le16, read_le32};
use crate::error::{DecodeError, QueryError};
use crate::attr::NfNetlinkAttribute;
use crate::nlmsg::{header_bytes, lemma_with_len_shift, padded, with_len, zeros, NfNetlinkWriter};
use crate::sys::{NFNL_SUBSYS_NFTABLES, NLMSG_DONE, NLMSG_ERROR, NLMSG_NOOP, NLM_F_DUMP, NLM_F_MULTI};
use crate::ProtocolFamily;

verus! {

/// The largest filter a dump request carries: its message's length field is
/// a `u32`.
pub const MAX_FILTER_SIZE: usize = 0xffff_0000;

/// The fields of a netlink header.
#[derive(Debug, Clone, Copy, PartialEq, Eq, Structural)]
pub struct NlMsgHeader {
    pub nlmsg_len: u32,
    pub nlmsg_type: u16,
    pub nlmsg_flags: u16,
    pub nlmsg_seq: u32,
    pub nlmsg_pid: u32,
}

/// What a netlink message is.
#[derive(Debug, Clone, Copy, PartialEq, Eq, Structural)]
pub enum NlMsg {
    /// The end of a multi-part reply.
    Done,
    /// An error report; code 0 acknowledges a request.
    Error(i32),
    /// A message to ignore.
    Noop,
    /// A message of the nftables subsystem.
    NfGenMsg,
}

/// The header stored at `s[i..i + 16]`.
pub open spec fn header_at(s: Seq<u8>, i: int) -> NlMsgHeader {
    NlMsgHeader {
        nlmsg_len: get_le32(s, i),
        nlmsg_type: get_le16(s, i + 4),
        nlmsg_flags: get_le16(s, i + 6),
        nlmsg_seq: get_le32(s, i + 8),
        nlmsg_pid: get_le32(s, i + 12),
    }
}

/// The message at the start of `s`, which must hold all of it.
pub open spec fn parse_spec(s: Seq<u8>) -> Result<(NlMsgHeader, NlMsg), DecodeError> {
    if s.len() < NLMSGHDR_SIZE {
        Err(DecodeError::BufTooSmall)
    } else {
        let h = header_at(s, 0);
        if h.nlmsg_len < NLMSGHDR_SIZE {
            Err(DecodeError::NlMsgTooSmall)
        } else if h.nlmsg_len > s.len() {
            Err(DecodeError::BufTooSmall)
        } else if h.nlmsg_type == NLMSG_NOOP {
            Ok((h, NlMsg::Noop))
        } else if h.nlmsg_type == NLMSG_DONE {
            Ok((h, NlMsg::Done))
        } else if h.nlmsg_type == NLMSG_ERROR {
            if h.nlmsg_len < NLMSGHDR_SIZE + 4 {
                Err(DecodeError::NlMsgTooSmall)
            } else {
                Ok((h, NlMsg::Error(get_le32(s, NLMSGHDR_SIZE as int) as i32)))
            }
        } else if h.nlmsg_type >> 8u16 == NFNL_SUBSYS_NFTABLES {
            Ok((h, NlMsg::NfGenMsg))
        } else {
            Err(DecodeError::UnsupportedType(h.nlmsg_type))
        }
    }
}

/// Decodes the header of the message at the start of `buf` and classifies it.
pub fn parse_nlmsg(buf: &[u8]) -> (r: Result<(NlMsgHeader, NlMsg), DecodeError>)
    ensures
        r == parse_spec(buf@),
{
    if buf.len() < NLMSGHDR_SIZE {
        return Err(DecodeError::BufTooSmall);
    }
    let h = NlMsgHeader {
        nlmsg_len: read_le32(buf, 0),
        nlmsg_type: read_le16(buf, 4),
        nlmsg_flags: read_le16(buf, 6),
        nlmsg_seq: read_le32(buf, 8),
        nlmsg_pid: read_le32(buf, 12),
    };
    if (h.nlmsg_len as usize) < NLMSGHDR_SIZE {
        Err(DecodeError::NlMsgTooSmall)
    } else if h.nlmsg_len as usize > buf.len() {
        Err(DecodeError::BufTooSmall)
    } else if h.nlmsg_type == NLMSG_NOOP {
        Ok((h, NlMsg::Noop))
    } else if h.nlmsg_type == NLMSG_DONE {
        Ok((h, NlMsg::Done))
    } else if h.nlmsg_type == NLMSG_ERROR {
        if (h.nlmsg_len as usize) < NLMSGHDR_SIZE + 4 {
            Err(DecodeError::NlMsgTooSmall)
        } else {
            Ok((h, NlMsg::Error(read_le32(buf, NLMSGHDR_SIZE) as i32)))
        }
    } else if h.nlmsg_type >> 8u16 == NFNL_SUBSYS_NFTABLES {
        Ok((h, NlMsg::NfGenMsg))
    } else {
        Err(DecodeError::UnsupportedType(h.nlmsg_type))
    }
}

/// How a run over received bytes ended.
#[derive(Debug, Clone, Copy, PartialEq, Eq, Structural)]
pub enum RecvStatus {
    /// Every complete message was handled; more bytes are needed.
    NeedMore,
    /// The reply is complete.
    Finished,
    /// The reply failed.
    Failed(QueryError),
}

/// What a run over received bytes yields: the application messages in order,
/// how the run ended, and how many bytes it consumed.
pub struct ScanResult {
    pub messages: Seq<Seq<u8>>,
    pub status: RecvStatus,
    pub consumed: nat,
}

/// Whether the message with header `h` ends the reply, given the caller's
/// maximum sequence number; `None` to go on.
pub open spec fn termination(h: NlMsgHeader, max_seq: Option<u32>) -> Option<RecvStatus> {
    if max_seq is None && h.nlmsg_flags & NLM_F_MULTI == 0 {
        Some(RecvStatus::Failed(QueryError::UndecidableMessageTermination))
    } else if max_seq is Some && h.nlmsg_seq >= max_seq.unwrap() {
        Some(RecvStatus::Finished)
    } else {
        None
    }
}

/// Processes the complete messages at the start of `s`, one after another,
/// until the reply ends or the rest is not a complete message.
pub open spec fn scan(s: Seq<u8>, max_seq: Option<u32>) -> ScanResult
    decreases s.len(),
{
    let none = Seq::<Seq<u8>>::empty();
    if s.len() < NLMSGHDR_SIZE {
        ScanResult { messages: none, status: RecvStatus::NeedMore, consumed: 0 }
    } else if get_le32(s, 0) < NLMSGHDR_SIZE {
        ScanResult {
            messages: none,
            status: RecvStatus::Failed(QueryError::Decode(DecodeError::NlMsgTooSmall)),
            consumed: 0,
        }
    } else if get_le32(s, 0) > s.len() {
        ScanResult { messages: none, status: RecvStatus::NeedMore, consumed: 0 }
    } else {
        match parse_spec(s) {
            Err(e) => ScanResult {
                messages: none,
                status: RecvStatus::Failed(QueryError::Decode(e)),
                consumed: 0,
            },
            Ok((h, msg)) => {
                let len = h.nlmsg_len as int;
                let step = if align4(len as nat) <= s.len() {
                    align4(len as nat) as int
                } else {
                    s.len() as int
                };
                match msg {
                    NlMsg::Done => ScanResult {
                        messages: none,
                        status: RecvStatus::Finished,
                        consumed: step as nat,
                    },
                    NlMsg::Error(code) if code != 0 => ScanResult {
                        messages: none,
                        status: RecvStatus::Failed(QueryError::NetlinkError(code)),
                        consumed: step as nat,
                    },
                    _ => {
                        let mine = if msg is NfGenMsg {
                            seq![s.subrange(0, len)]
                        } else {
                            none
                        };
                        match termination(h, max_seq) {
                            Some(st) => ScanResult {
                                messages: mine,
                                status: st,
                                consumed: step as nat,
                            },
                            None => {
                                let rest = scan(s.subrange(step, s.len() as int), max_seq);
                                ScanResult {
                                    messages: mine + rest.messages,
                                    status: rest.status,
                                    consumed: step as nat + rest.consumed,
                                }
                            },
                        }
                    },
                }
            },
        }
    }
}

/// The byte contents of each buffer in `v`.
pub open spec fn contents(v: Seq<Vec<u8>>) -> Seq<Seq<u8>> {
    v.map_values(|m: Vec<u8>| m@)
}

/// What one delivery of bytes produced.
pub struct RecvStep {
    /// The application messages completed by the delivery, each exactly as
    /// long as its header declares, in the order received.
    pub messages: Vec<Vec<u8>>,
    pub status: RecvStatus,
}

/// The receive cursor: the bytes received but not yet consumed, and the
/// caller's maximum sequence number.
pub struct Receiver {
    buf: Vec<u8>,
    max_seq: Option<u32>,
}

impl Receiver {
    /// Bytes received and not yet consumed.
    pub closed spec fn pending(&self) -> Seq<u8> {
        self.buf@
    }

    pub closed spec fn max_seq(&self) -> Option<u32> {
        self.max_seq
    }

    /// A cursor for a reply that ends with a `Done` message, with a message
    /// whose sequence number reaches `max_seq`, or with an error.
    pub fn new(max_seq: Option<u32>) -> (r: Receiver)
        ensures
            r.pending() == Seq::<u8>::empty(),
            r.max_seq() == max_seq,
    {
        Receiver { buf: Vec::new(), max_seq }
    }

    /// How many received bytes are not yet consumed.
    pub fn pending_len(&self) -> (r: usize)
        ensures
            r == self.pending().len(),
    {
        self.buf.len()
    }

    /// Takes the bytes of one receive. No bytes mean that the stream ended,
    /// which finishes the reply. Otherwise the complete messages among the
    /// pending bytes are processed in order, the application messages among
    /// them are handed back, and the bytes of an incomplete message stay
    /// pending.
    pub fn process(&mut self, data: &[u8]) -> (r: RecvStep)
        requires
            old(self).pending().len() + data@.len() <= usize::MAX,
        ensures
            final(self).max_seq() == old(self).max_seq(),
            data@.len() == 0 ==> {
                &&& r.messages@.len() == 0
                &&& r.status == RecvStatus::Finished
                &&& final(self).pending() == old(self).pending()
            },
            data@.len() > 0 ==> {
                let all = old(self).pending() + data@;
                let res = scan(all, old(self).max_seq());
                &&& contents(r.messages@) == res.messages
                &&& r.status == res.status
                &&& res.consumed <= all.len()
                &&& final(self).pending() == all.subrange(res.consumed as int, all.len() as int)
            },
    {
        if data.len() == 0 {
            return RecvStep { messages: Vec::new(), status: RecvStatus::Finished };
        }
        let mut k: usize = 0;
        while k < data.len()
            invariant
                0 <= k <= data@.len(),
                self.buf@ == old(self).buf@ + data@.subrange(0, k as int),
                self.max_seq == old(self).max_seq,
            decreases data@.len() - k,
        {
            self.buf.push(data[k]);
            k = k + 1;
            assert(self.buf@ =~= old(self).buf@ + data@.subrange(0, k as int));
        }
        assert(data@.subrange(0, k as int) =~= data@);
        let max_seq = self.max_seq;
        let all = self.buf.as_slice();
        let n = all.len();
        let mut off: usize = 0;
        let mut msgs: Vec<Vec<u8>> = Vec::new();
        let mut status = RecvStatus::NeedMore;
        assert(all@.subrange(0, n as int) =~= all@);
        assert(contents(msgs@) =~= Seq::<Seq<u8>>::empty());
        loop
            invariant_except_break
                status == RecvStatus::NeedMore,
                ({
                    let tail = scan(all@.subrange(off as int, n as int), max_seq);
                    scan(all@, max_seq) == ScanResult {
                        messages: contents(msgs@) + tail.messages,
                        status: tail.status,
                        consumed: (off + tail.consumed) as nat,
                    }
                }),
            invariant
                off <= n,
                n == all@.len(),
            ensures
                off <= n,
                scan(all@, max_seq) == (ScanResult {
                    messages: contents(msgs@),
                    status: status,
                    consumed: off as nat,
                }),
            decreases n - off,
        {
            let rest = slice_subrange(all, off, n);
            let ghost t = rest@;
            if rest.len() < NLMSGHDR_SIZE {
                assert(contents(msgs@) + Seq::<Seq<u8>>::empty() =~= contents(msgs@));
                break;
            }
            let len = read_le32(rest, 0);
            if (len as usize) < NLMSGHDR_SIZE {
                status = RecvStatus::Failed(QueryError::Decode(DecodeError::NlMsgTooSmall));
                assert(contents(msgs@) + Seq::<Seq<u8>>::empty() =~= contents(msgs@));
                break;
            }
            if len as usize > rest.len() {
                assert(contents(msgs@) + Seq::<Seq<u8>>::empty() =~= contents(msgs@));
                break;
            }
            proof {
                lemma_align4(len as nat);
            }
            let l64 = len as u64;
            let aligned: u64 = if l64 % 4 == 0 {
                l64
            } else {
                l64 + (4 - l64 % 4)
            };
            let step: usize = if aligned <= rest.len() as u64 {
                aligned as usize
            } else {
                rest.len()
            };
            match parse_nlmsg(rest) {
                Err(e) => {
                    status = RecvStatus::Failed(QueryError::Decode(e));
                    assert(contents(msgs@) + Seq::<Seq<u8>>::empty() =~= contents(msgs@));
                    break;
                },
                Ok((h, msg)) => {
                    match msg {
                        NlMsg::Done => {
                            status = RecvStatus::Finished;
                            assert(contents(msgs@) + Seq::<Seq<u8>>::empty() =~= contents(
                                msgs@,
                            ));
                            off = off + step;
                            break;
                        },
                        NlMsg::Error(code) if code != 0 => {
                            status = RecvStatus::Failed(QueryError::NetlinkError(code));
                            assert(contents(msgs@) + Seq::<Seq<u8>>::empty() =~= contents(
                                msgs@,
                            ));
                            off = off + step;
                            break;
                        },
                        _ => {
                            let ghost before = contents(msgs@);
                            let is_app = match msg {
                                NlMsg::NfGenMsg => true,
                                _ => false,
                            };
                            if is_app {
                                let m = slice_to_vec(slice_subrange(rest, 0, len as usize));
                                msgs.push(m);
                                assert(contents(msgs@) =~= before + seq![t.subrange(0, len as int)]);
                            } else {
                                assert(contents(msgs@) =~= before + Seq::<Seq<u8>>::empty());
                            }
                            let end = if max_seq.is_none() && h.nlmsg_flags & NLM_F_MULTI == 0 {
                                Some(RecvStatus::Failed(QueryError::UndecidableMessageTermination))
                            } else if max_seq.is_some() && h.nlmsg_seq >= max_seq.unwrap() {
                                Some(RecvStatus::Finished)
                            } else {
                                None
                            };
                            match end {
                                Some(st) => {
                                    status = st;
                                    off = off + step;
                                    break;
                                },
                                None => {
                                    assert(t.subrange(step as int, t.len() as int) =~= all@.subrange(
                                        off + step,
                                        n as int,
                                    ));
                                    off = off + step;
                                    assert(contents(msgs@) + scan(
                                        all@.subrange(off as int, n as int),
                                        max_seq,
                                    ).messages =~= before + scan(t, max_seq).messages);
                                },
                            }
                        },
                    }
                },
            }
        }
        let left = slice_to_vec(slice_subrange(all, off, n));
        self.buf = left;
        RecvStep { messages: msgs, status }
    }
}

/// The request that dumps every object of type `msg_type`, narrowed by a
/// filter whose payload is given.
pub open spec fn dump_request(
    msg_type: u16,
    seq: u32,
    filter: Option<Seq<u8>>,
    family: ProtocolFamily,
) -> Seq<u8> {
    let h = header_bytes(msg_type, family, NLM_F_DUMP, seq, None);
    match filter {
        None => h,
        Some(f) => with_len(h + padded(f), 0, (h.len() + align4(f.len())) as u32),
    }
}

/// Builds the message that asks the kernel for a list of objects, such as
/// tables, optionally narrowed by a filter.
pub fn get_list_of_objects<T: NfNetlinkAttribute>(
    msg_type: u16,
    seq: u32,
    filter: Option<&T>,
    family: ProtocolFamily,
) -> (r: Result<Vec<u8>, QueryError>)
    requires
        filter matches Some(f) ==> f.writable() && f.payload().len() <= MAX_FILTER_SIZE,
    ensures
        r matches Ok(b) && b@ == dump_request(
            msg_type,
            seq,
            match filter {
                Some(f) => Some(f.payload()),
                None => None,
            },
            family,
        ),
{
    let mut writer = NfNetlinkWriter::new(Vec::new());
    writer.write_header(msg_type, family, NLM_F_DUMP, seq, None);
    let ghost h = header_bytes(msg_type, family, NLM_F_DUMP, seq, None);
    assert(writer.buffer() =~= h);
    match filter {
        Some(f) => {
            let mut payload: Vec<u8> = Vec::new();
            f.write_payload(&mut payload);
            assert(payload@ =~= f.payload());
            proof {
                lemma_align4(payload@.len());
            }
            writer.add_data(payload.as_slice());
            proof {
                lemma_with_len_shift(Seq::<u8>::empty(), h + padded(payload@), 0, (h.len() + align4(payload@.len())) as u32);
                assert(Seq::<u8>::empty() + h =~= h);
                assert(Seq::<u8>::empty() + (h + padded(payload@)) =~= h + padded(payload@));
                assert(h + payload@ + zeros((align4(payload@.len()) - payload@.len()) as nat) =~= h + padded(payload@));
            }
        },
        None => {},
    }
    writer.finalize_writing_object();
    Ok(writer.extract_buffer())
}

} // verus!
