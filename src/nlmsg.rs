//! Writing netlink messages into a growable buffer.
use vstd::prelude::*;

use crate::align::{align4, lemma_align4, pad_netlink_object_with_variable_size, NFGENMSG_SIZE, NLMSGHDR_SIZE};
use crate::bytes::{be16, get_le32, le16, le32, lemma_le32_read, push_be16, push_le16, push_le32, read_le32};
use crate::sys::{NFNETLINK_V0, NFNL_MSG_BATCH_BEGIN, NFNL_MSG_BATCH_END, NFNL_SUBSYS_NFTABLES, NLM_F_REQUEST};
use crate::{MsgType, ProtocolFamily};

verus! {

/// `n` zero bytes.
pub open spec fn zeros(n: nat) -> Seq<u8> {
    Seq::new(n, |_i: int| 0u8)
}

/// `buf` with the four bytes at `h` replaced by `len`.
pub open spec fn with_len(buf: Seq<u8>, h: int, len: u32) -> Seq<u8> {
    buf.subrange(0, h) + le32(len) + buf.subrange(h + 4, buf.len() as int)
}

proof fn lemma_with_len_update(x: Seq<u8>, h: int, len: u32, k: int, d: u8)
    requires
        0 <= h,
        h + 4 <= k < x.len(),
    ensures
        with_len(x, h, len).update(k, d) == with_len(x.update(k, d), h, len),
{
    let l = with_len(x, h, len).update(k, d);
    let r = with_len(x.update(k, d), h, len);
    assert(l.len() == r.len());
    assert forall|j: int| 0 <= j < l.len() implies l[j] == r[j] by {
        if j < h {
        } else if j < h + 4 {
        } else {
        }
    }
    assert(l =~= r);
}

/// `data` followed by the zero bytes that pad it to a multiple of four.
pub open spec fn padded(data: Seq<u8>) -> Seq<u8> {
    data + zeros((align4(data.len()) - data.len()) as nat)
}

/// Batch bracket messages are not part of the nftables subsystem and carry no
/// family header.
pub open spec fn is_batch_marker(msg_type: u16) -> bool {
    msg_type == NFNL_MSG_BATCH_BEGIN || msg_type == NFNL_MSG_BATCH_END
}

/// Bytes of a netlink header (`nlmsghdr`), with a zero port id.
pub open spec fn nlmsghdr_bytes(len: u32, ty: u16, flags: u16, seq: u32) -> Seq<u8> {
    le32(len) + le16(ty) + le16(flags) + le32(seq) + le32(0)
}

/// Bytes of an nfnetlink family header (`nfgenmsg`).
pub open spec fn nfgenmsg_bytes(family: ProtocolFamily, res_id: u16) -> Seq<u8> {
    seq![family.spec_code(), NFNETLINK_V0] + be16(res_id)
}

/// What `write_header` appends.
pub open spec fn header_bytes(
    msg_type: u16,
    family: ProtocolFamily,
    flags: u16,
    seq: u32,
    res_id: Option<u16>,
) -> Seq<u8> {
    if is_batch_marker(msg_type) {
        nlmsghdr_bytes(NLMSGHDR_SIZE as u32, msg_type, NLM_F_REQUEST | flags, seq)
    } else {
        nlmsghdr_bytes(
            (NLMSGHDR_SIZE + NFGENMSG_SIZE) as u32,
            msg_type | (NFNL_SUBSYS_NFTABLES << 8u16),
            NLM_F_REQUEST | flags,
            seq,
        ) + nfgenmsg_bytes(
            family,
            match res_id {
                Some(r) => r,
                None => 0,
            },
        )
    }
}

/// Appends netlink messages to a buffer it owns, keeping the length field of
/// the message being written equal to the bytes written since its header.
pub struct NfNetlinkWriter {
    buf: Vec<u8>,
    headers: Option<usize>,
}

impl NfNetlinkWriter {
    /// Every byte written so far.
    pub closed spec fn buffer(&self) -> Seq<u8> {
        self.buf@
    }

    /// Offset of the header of the message being written, if one is open.
    pub closed spec fn open_header(&self) -> Option<usize> {
        self.headers
    }

    /// The length that the open message's header declares.
    pub open spec fn declared_len(&self) -> u32 {
        get_le32(self.buffer(), self.open_header().unwrap() as int)
    }

    pub open spec fn wf(&self) -> bool {
        match self.open_header() {
            None => true,
            Some(h) => {
                &&& h + NLMSGHDR_SIZE <= self.buffer().len()
                &&& self.buffer().len() - h <= u32::MAX
                &&& self.declared_len() == self.buffer().len() - h
            },
        }
    }

    pub fn new(buf: Vec<u8>) -> (r: NfNetlinkWriter)
        ensures
            r.wf(),
            r.buffer() == buf@,
            r.open_header() is None,
    {
        NfNetlinkWriter { buf, headers: None }
    }

    /// Hands back the buffer with everything written to it.
    pub fn extract_buffer(self) -> (r: Vec<u8>)
        ensures
            r@ == self.buffer(),
    {
        self.buf
    }

    /// Appends `size` zero bytes and the padding after them, and adds the
    /// padded size to the open message's length. Returns where they start.
    pub fn add_data_zeroed(&mut self, size: usize) -> (start: usize)
        requires
            old(self).wf(),
            old(self).open_header() is Some,
            old(self).buffer().len() - old(self).open_header().unwrap() + align4(size as nat)
                <= u32::MAX,
        ensures
            final(self).wf(),
            start == old(self).buffer().len(),
            final(self).buffer() == with_len(
                old(self).buffer() + zeros(align4(size as nat)),
                old(self).open_header().unwrap() as int,
                (old(self).declared_len() + align4(size as nat)) as u32,
            ),
            final(self).open_header() == old(self).open_header(),
            final(self).declared_len() == old(self).declared_len() + align4(size as nat),
    {
        proof {
            lemma_align4(size as nat);
        }
        let padded = pad_netlink_object_with_variable_size(size);
        let start = self.buf.len();
        let mut i: usize = 0;
        while i < padded
            invariant
                0 <= i <= padded,
                start == old(self).buf@.len(),
                self.buf@ == old(self).buf@ + zeros(i as nat),
                self.headers == old(self).headers,
            decreases padded - i,
        {
            self.buf.push(0u8);
            i = i + 1;
            assert(self.buf@ =~= old(self).buf@ + zeros(i as nat));
        }
        let h = self.headers.unwrap();
        proof {
            let hh = h as int;
            assert(self.buf@.subrange(hh, hh + 4) =~= old(self).buf@.subrange(hh, hh + 4));
        }
        self.bump_len(h, padded as u32);
        start
    }

    /// Adds `delta` to the length field of the header at `h`.
    fn bump_len(&mut self, h: usize, delta: u32)
        requires
            h + NLMSGHDR_SIZE <= old(self).buf@.len(),
            get_le32(old(self).buf@, h as int) + delta <= u32::MAX,
        ensures
            final(self).buf@ == with_len(
                old(self).buf@,
                h as int,
                (get_le32(old(self).buf@, h as int) + delta) as u32,
            ),
            get_le32(final(self).buf@, h as int) == get_le32(old(self).buf@, h as int) + delta,
            final(self).headers == old(self).headers,
    {
        let n = self.buf.len();
        assert(h + 4 <= n);
        let cur = read_le32(self.buf.as_slice(), h);
        let x: u32 = cur + delta;
        self.buf.set(h, (x & 0xff) as u8);
        self.buf.set(h + 1, ((x >> 8u32) & 0xff) as u8);
        self.buf.set(h + 2, ((x >> 16u32) & 0xff) as u8);
        self.buf.set(h + 3, (x >> 24u32) as u8);
        assert(self.buf@.subrange(h as int, h + 4) =~= le32(x));
        assert(self.buf@ =~= with_len(old(self).buf@, h as int, x));
        proof {
            lemma_le32_read(self.buf@, h as int, x);
        }
    }

    /// Appends `data` and its padding, and adds the padded size to the open
    /// message's length.
    pub fn add_data(&mut self, data: &[u8])
        requires
            old(self).wf(),
            old(self).open_header() is Some,
            old(self).buffer().len() - old(self).open_header().unwrap() + align4(data@.len())
                <= u32::MAX,
        ensures
            final(self).wf(),
            final(self).buffer() == with_len(
                old(self).buffer() + padded(data@),
                old(self).open_header().unwrap() as int,
                (old(self).declared_len() + align4(data@.len())) as u32,
            ),
            final(self).open_header() == old(self).open_header(),
            final(self).declared_len() == old(self).declared_len() + align4(data@.len()),
    {
        proof {
            lemma_align4(data@.len());
        }
        let ghost h = old(self).headers.unwrap() as int;
        let ghost newlen = (old(self).declared_len() + align4(data@.len())) as u32;
        let ghost a = align4(data@.len());
        let start = self.add_data_zeroed(data.len());
        assert(old(self).buf@ + data@.subrange(0, 0) + zeros(a as nat) =~= old(self).buf@ + zeros(
            a as nat,
        ));
        let end = self.buf.len();
        let mut i: usize = 0;
        while i < data.len()
            invariant
                0 <= i <= data@.len(),
                start == old(self).buf@.len(),
                end == start + a,
                a >= data@.len(),
                0 <= h,
                h + NLMSGHDR_SIZE <= start,
                self.buf@.len() == start + a,
                self.buf@ == with_len(
                    old(self).buf@ + data@.subrange(0, i as int) + zeros((a - i) as nat),
                    h,
                    newlen,
                ),
                self.headers == old(self).headers,
            decreases data@.len() - i,
        {
            let ghost x0 = old(self).buf@ + data@.subrange(0, i as int) + zeros((a - i) as nat);
            self.buf.set(start + i, data[i]);
            proof {
                lemma_with_len_update(x0, h, newlen, start + i, data@[i as int]);
            }
            assert(x0.update(start + i, data@[i as int]) =~= old(self).buf@ + data@.subrange(
                0,
                i + 1,
            ) + zeros((a - (i + 1)) as nat));
            i = i + 1;
            assert(self.buf@ =~= with_len(
                old(self).buf@ + data@.subrange(0, i as int) + zeros((a - i) as nat),
                h,
                newlen,
            ));
        }
        assert(old(self).buf@ + data@.subrange(0, i as int) + zeros((a - i) as nat)
            =~= old(self).buf@ + padded(data@));
        proof {
            assert(self.buf@.subrange(h, h + 4) =~= le32(newlen));
            lemma_le32_read(self.buf@, h, newlen);
        }
    }

    /// Starts a message: appends its netlink header and, unless it is a batch
    /// bracket, its family header, and opens it for payload.
    pub fn write_header(
        &mut self,
        msg_type: u16,
        family: ProtocolFamily,
        flags: u16,
        seq: u32,
        ressource_id: Option<u16>,
    )
        requires
            old(self).buffer().len() + NLMSGHDR_SIZE + NFGENMSG_SIZE <= usize::MAX,
        ensures
            final(self).wf(),
            final(self).buffer() == old(self).buffer() + header_bytes(
                msg_type,
                family,
                flags,
                seq,
                ressource_id,
            ),
            final(self).open_header() == Some(old(self).buffer().len() as usize),
            final(self).declared_len() == header_bytes(msg_type, family, flags, seq, ressource_id).len(),
            final(self).declared_len() == if is_batch_marker(msg_type) {
                NLMSGHDR_SIZE as int
            } else {
                NLMSGHDR_SIZE + NFGENMSG_SIZE
            },
    {
        let start = self.buf.len();
        let batch = msg_type == NFNL_MSG_BATCH_BEGIN || msg_type == NFNL_MSG_BATCH_END;
        let len: u32 = if batch {
            NLMSGHDR_SIZE as u32
        } else {
            (NLMSGHDR_SIZE + NFGENMSG_SIZE) as u32
        };
        let ty: u16 = if batch {
            msg_type
        } else {
            msg_type | (NFNL_SUBSYS_NFTABLES << 8u16)
        };
        push_le32(&mut self.buf, len);
        push_le16(&mut self.buf, ty);
        push_le16(&mut self.buf, NLM_F_REQUEST | flags);
        push_le32(&mut self.buf, seq);
        push_le32(&mut self.buf, 0);
        if !batch {
            self.buf.push(family.code());
            self.buf.push(NFNETLINK_V0);
            let res: u16 = match ressource_id {
                Some(r) => r,
                None => 0,
            };
            push_be16(&mut self.buf, res);
        }
        self.headers = Some(start);
        let ghost hb = header_bytes(msg_type, family, flags, seq, ressource_id);
        assert(self.buf@ =~= old(self).buf@ + hb);
        proof {
            assert(self.buf@.subrange(start as int, start + 4) =~= le32(len));
            lemma_le32_read(self.buf@, start as int, len);
        }
    }

    /// Every byte written so far.
    pub fn as_slice(&self) -> (r: &[u8])
        ensures
            r@ == self.buffer(),
    {
        self.buf.as_slice()
    }

    /// Closes the message being written.
    pub fn finalize_writing_object(&mut self)
        ensures
            final(self).wf(),
            final(self).buffer() == old(self).buffer(),
            final(self).open_header() is None,
    {
        self.headers = None;
    }
}

/// Replacing a length field after a prefix only touches what follows it.
pub proof fn lemma_with_len_shift(a: Seq<u8>, x: Seq<u8>, h: int, len: u32)
    requires
        0 <= h,
        h + 4 <= x.len(),
    ensures
        with_len(a + x, a.len() + h, len) == a + with_len(x, h, len),
{
    assert(with_len(a + x, a.len() + h, len) =~= a + with_len(x, h, len));
}

/// An object that writes itself into a batch as one message.
pub trait NfNetlinkObject {
    /// Whether the object can be written: each of its values fits an
    /// attribute.
    spec fn writable(&self) -> bool;

    /// The message that `add_or_remove` writes.
    spec fn message_bytes(&self, msg_type: MsgType, seq: u32) -> Seq<u8>;

    /// Writes one message that creates or deletes the object.
    fn add_or_remove(&self, writer: &mut NfNetlinkWriter, msg_type: MsgType, seq: u32)
        requires
            self.writable(),
            old(writer).wf(),
            old(writer).open_header() is None,
            old(writer).buffer().len() + self.message_bytes(msg_type, seq).len() <= usize::MAX,
        ensures
            final(writer).wf(),
            final(writer).open_header() is None,
            final(writer).buffer() == old(writer).buffer() + self.message_bytes(msg_type, seq),
    ;
}

/// The sum of the padded sizes of `sizes`.
pub open spec fn sum_aligned(sizes: Seq<nat>) -> nat
    decreases sizes.len(),
{
    if sizes.len() == 0 {
        0
    } else {
        sum_aligned(sizes.drop_last()) + align4(sizes.last())
    }
}

/// Writers `ws[0]`, ..., `ws[k]` where `ws[0]` has just written the headers
/// of a message and each next one has appended `sizes[i]` bytes of payload
/// with `add_data_zeroed`: the message then declares the size of its two
/// headers plus the padded size of each payload.
pub proof fn lemma_declared_after_payloads(ws: Seq<NfNetlinkWriter>, sizes: Seq<nat>)
    requires
        ws.len() == sizes.len() + 1,
        ws[0].declared_len() == NLMSGHDR_SIZE + NFGENMSG_SIZE,
        forall|i: int|
            0 <= i < sizes.len() ==> #[trigger] ws[i + 1].declared_len() == ws[i].declared_len()
                + align4(sizes[i]),
    ensures
        ws.last().declared_len() == NLMSGHDR_SIZE + NFGENMSG_SIZE + sum_aligned(sizes),
    decreases sizes.len(),
{
    if sizes.len() > 0 {
        let k = sizes.len() - 1;
        let ws0 = ws.drop_last();
        let s0 = sizes.drop_last();
        assert forall|i: int| 0 <= i < s0.len() implies #[trigger] ws0[i + 1].declared_len()
            == ws0[i].declared_len() + align4(s0[i]) by {
            assert(ws0[i + 1] == ws[i + 1]);
            assert(ws0[i] == ws[i]);
            assert(s0[i] == sizes[i]);
        }
        lemma_declared_after_payloads(ws0, s0);
        assert(ws[k + 1].declared_len() == ws[k].declared_len() + align4(sizes[k]));
    }
}

} // verus!
