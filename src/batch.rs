//! Batches: messages committed by the kernel as one transaction.
use vstd::prelude::*;
use vstd::slice::slice_subrange;

use crate::align::NLMSGHDR_SIZE;
use crate::nlmsg::{header_bytes, NfNetlinkObject, NfNetlinkWriter};
use crate::sys::{NFNL_MSG_BATCH_BEGIN, NFNL_MSG_BATCH_END};
use crate::{MsgType, ProtocolFamily};

verus! {

/// The message that opens a batch.
pub open spec fn begin_marker() -> Seq<u8> {
    header_bytes(NFNL_MSG_BATCH_BEGIN, ProtocolFamily::Unspec, 0, 0, None)
}

/// The message that closes a batch whose last sequence number in use is
/// below `seq`.
pub open spec fn end_marker(seq: u32) -> Seq<u8> {
    header_bytes(NFNL_MSG_BATCH_END, ProtocolFamily::Unspec, 0, seq, None)
}

/// The messages of `msgs`, numbered from `seq` on.
pub open spec fn messages_bytes<T: NfNetlinkObject>(msgs: Seq<T>, msg_type: MsgType, seq: u32) -> Seq<u8>
    decreases msgs.len(),
{
    if msgs.len() == 0 {
        Seq::empty()
    } else {
        messages_bytes(msgs.drop_last(), msg_type, seq) + msgs.last().message_bytes(
            msg_type,
            (seq + msgs.len() - 1) as u32,
        )
    }
}

/// Relies on `nix::unistd::sysconf` for the size of a memory page, which
/// depends on the machine: nothing is known of the result.
#[verifier::external_body]
fn system_page_size() -> (r: Option<u64>) {
    match nix::unistd::sysconf(nix::unistd::SysconfVar::PAGE_SIZE) {
        Ok(Some(v)) => u64::try_from(v).ok(),
        _ => None,
    }
}

/// The batch size for a machine whose page size is `page_size`, if known.
pub open spec fn spec_batch_page_size(page_size: Option<u64>) -> u32 {
    match page_size {
        Some(p) if 0 < p && p <= (u32::MAX / 32) as u64 => (p * 32) as u32,
        _ => (4096 * 32) as u32,
    }
}

/// Thirty-two pages: enough to queue about half a million rules without
/// exceeding what the kernel takes in one call. Falls back on pages of 4096
/// bytes where the page size is unknown or out of range.
pub fn batch_page_size(page_size: Option<u64>) -> (r: u32)
    ensures
        r == spec_batch_page_size(page_size),
        r > 0,
{
    match page_size {
        Some(p) if 0 < p && p <= (u32::MAX / 32) as u64 => (p * 32) as u32,
        _ => 4096 * 32,
    }
}

/// The batch size for this machine's pages.
pub fn default_batch_page_size() -> (r: u32)
    ensures
        r > 0,
{
    batch_page_size(system_page_size())
}

/// A batch of messages to be performed in one atomic operation: a begin
/// marker, the messages, each with the next sequence number, and, once
/// finalized, an end marker.
pub struct Batch {
    writer: NfNetlinkWriter,
    seq: u32,
    is_empty: bool,
    page_size: u32,
}

impl Batch {
    /// Every byte written so far.
    pub closed spec fn buffer(&self) -> Seq<u8> {
        self.writer.buffer()
    }

    /// The sequence number of the next message.
    pub closed spec fn seq(&self) -> u32 {
        self.seq
    }

    /// Whether no message was added yet.
    pub closed spec fn is_empty(&self) -> bool {
        self.is_empty
    }

    /// The size of the chunks the finalized batch is sent in.
    pub closed spec fn page_size(&self) -> u32 {
        self.page_size
    }

    pub closed spec fn wf(&self) -> bool {
        &&& self.writer.wf()
        &&& self.writer.open_header() is None
        &&& self.writer.buffer().len() >= NLMSGHDR_SIZE
        &&& self.writer.buffer().subrange(0, NLMSGHDR_SIZE as int) == begin_marker()
        &&& self.seq >= 1
        &&& self.page_size > 0
    }

    /// A batch with the default page size.
    pub fn new() -> (r: Batch)
        ensures
            r.wf(),
            r.buffer() == begin_marker(),
            r.seq() == 1,
            r.is_empty(),
    {
        Batch::with_page_size(default_batch_page_size())
    }

    /// A batch whose buffer starts with room for `batch_page_size` bytes.
    pub fn with_page_size(batch_page_size: u32) -> (r: Batch)
        requires
            batch_page_size > 0,
        ensures
            r.wf(),
            r.buffer() == begin_marker(),
            r.seq() == 1,
            r.is_empty(),
            r.page_size() == batch_page_size,
    {
        let buf: Vec<u8> = Vec::with_capacity(batch_page_size as usize);
        let mut writer = NfNetlinkWriter::new(buf);
        writer.write_header(NFNL_MSG_BATCH_BEGIN, ProtocolFamily::Unspec, 0, 0, None);
        writer.finalize_writing_object();
        assert(header_bytes(NFNL_MSG_BATCH_BEGIN, ProtocolFamily::Unspec, 0, 0, None).len() == 16);
        assert(writer.buffer() =~= begin_marker());
        assert(writer.buffer().subrange(0, 16) =~= begin_marker());
        Batch { writer, seq: 1, is_empty: true, page_size: batch_page_size }
    }

    /// Adds the message that creates or deletes `msg`, with the next sequence
    /// number.
    pub fn add<T: NfNetlinkObject>(&mut self, msg: &T, msg_type: MsgType)
        requires
            old(self).wf(),
            msg.writable(),
            old(self).seq() < u32::MAX,
            old(self).buffer().len() + msg.message_bytes(msg_type, old(self).seq()).len()
                <= usize::MAX,
        ensures
            final(self).wf(),
            final(self).buffer() == old(self).buffer() + msg.message_bytes(msg_type, old(self).seq()),
            final(self).seq() == old(self).seq() + 1,
            !final(self).is_empty(),
            final(self).page_size() == old(self).page_size(),
    {
        msg.add_or_remove(&mut self.writer, msg_type, self.seq);
        self.is_empty = false;
        self.seq = self.seq + 1;
        assert(self.writer.buffer().subrange(0, 16) =~= old(self).writer.buffer().subrange(0, 16));
    }

    /// Adds the messages of `msgs` in order.
    pub fn add_iter<T: NfNetlinkObject>(&mut self, msgs: &[T], msg_type: MsgType)
        requires
            old(self).wf(),
            forall|i: int| 0 <= i < msgs@.len() ==> (#[trigger] msgs@[i]).writable(),
            old(self).seq() + msgs@.len() <= u32::MAX,
            old(self).buffer().len() + messages_bytes(msgs@, msg_type, old(self).seq()).len()
                <= usize::MAX,
        ensures
            final(self).wf(),
            final(self).buffer() == old(self).buffer() + messages_bytes(
                msgs@,
                msg_type,
                old(self).seq(),
            ),
            final(self).seq() == old(self).seq() + msgs@.len(),
            final(self).is_empty() == (old(self).is_empty() && msgs@.len() == 0),
            final(self).page_size() == old(self).page_size(),
    {
        let n = msgs.len();
        let mut i: usize = 0;
        assert(msgs@.subrange(0, 0) =~= Seq::<T>::empty());
        assert(old(self).buffer() + messages_bytes(msgs@.subrange(0, 0), msg_type, old(self).seq())
            =~= old(self).buffer());
        while i < n
            invariant
                i <= n,
                n == msgs@.len(),
                self.wf(),
                forall|j: int| 0 <= j < msgs@.len() ==> (#[trigger] msgs@[j]).writable(),
                old(self).seq() + n <= u32::MAX,
                old(self).buffer().len() + messages_bytes(msgs@, msg_type, old(self).seq()).len()
                    <= usize::MAX,
                self.seq() == old(self).seq() + i,
                self.buffer() == old(self).buffer() + messages_bytes(
                    msgs@.subrange(0, i as int),
                    msg_type,
                    old(self).seq(),
                ),
                self.is_empty() == (old(self).is_empty() && i == 0),
                self.page_size() == old(self).page_size(),
            decreases n - i,
        {
            proof {
                lemma_messages_prefix_len(msgs@, msg_type, old(self).seq(), i as int + 1);
                let pre = msgs@.subrange(0, i + 1);
                assert(pre.drop_last() =~= msgs@.subrange(0, i as int));
                assert(pre.last() == msgs@[i as int]);
            }
            self.add(&msgs[i], msg_type);
            i = i + 1;
        }
        assert(msgs@.subrange(0, n as int) =~= msgs@);
    }

    /// Closes the batch with its end marker. Gives nothing back when no
    /// message was added: the kernel might never answer such a batch.
    pub fn finalize(self) -> (r: Option<FinalizedBatch>)
        requires
            self.wf(),
            self.buffer().len() + NLMSGHDR_SIZE <= usize::MAX - 4,
        ensures
            r is None <==> self.is_empty(),
            r matches Some(f) ==> f.buffer() == self.buffer() + end_marker(self.seq()) && f.page_size()
                == self.page_size(),
    {
        let mut this = self;
        this.writer.write_header(NFNL_MSG_BATCH_END, ProtocolFamily::Unspec, 0, this.seq, None);
        this.writer.finalize_writing_object();
        if this.is_empty {
            return None;
        }
        Some(FinalizedBatch { batch: this })
    }
}

proof fn lemma_messages_prefix_len<T: NfNetlinkObject>(msgs: Seq<T>, msg_type: MsgType, seq: u32, i: int)
    requires
        0 <= i <= msgs.len(),
    ensures
        messages_bytes(msgs.subrange(0, i), msg_type, seq).len() <= messages_bytes(
            msgs,
            msg_type,
            seq,
        ).len(),
    decreases msgs.len() - i,
{
    if i < msgs.len() {
        lemma_messages_prefix_len(msgs, msg_type, seq, i + 1);
        let pre = msgs.subrange(0, i + 1);
        assert(pre.drop_last() =~= msgs.subrange(0, i));
    } else {
        assert(msgs.subrange(0, i) =~= msgs);
    }
}

/// A finalized batch always starts with a begin marker and ends with an end
/// marker.
pub proof fn lemma_finalized_brackets(b: Batch)
    requires
        b.wf(),
    ensures
        ({
            let bytes = b.buffer() + end_marker(b.seq());
            &&& bytes.subrange(0, NLMSGHDR_SIZE as int) == begin_marker()
            &&& bytes.subrange(bytes.len() - NLMSGHDR_SIZE, bytes.len() as int) == end_marker(
                b.seq(),
            )
        }),
{
    let bytes = b.buffer() + end_marker(b.seq());
    assert(end_marker(b.seq()).len() == 16);
    assert(bytes.subrange(0, 16) =~= b.buffer().subrange(0, 16));
    assert(bytes.subrange(bytes.len() - 16, bytes.len() as int) =~= end_marker(b.seq()));
}

/// A batch closed by its end marker, ready to be sent.
pub struct FinalizedBatch {
    batch: Batch,
}

impl FinalizedBatch {
    /// The bytes to send.
    pub closed spec fn buffer(&self) -> Seq<u8> {
        self.batch.buffer()
    }

    pub closed spec fn page_size(&self) -> u32 {
        self.batch.page_size
    }

    pub closed spec fn wf(&self) -> bool {
        self.batch.page_size > 0
    }

    /// The bytes to send, one page-sized chunk at a time; each call starts
    /// over.
    pub fn iter(&self) -> (r: Iter<'_>)
        ensures
            r.data() == self.buffer(),
            r.pos() == 0,
            r.chunk() == self.page_size(),
    {
        let data = self.batch.writer.as_slice();
        Iter { data, pos: 0, chunk: self.batch.page_size as usize }
    }
}

/// Chunks of a finalized batch: consecutive slices of at most `chunk` bytes
/// that together make up its bytes.
pub struct Iter<'a> {
    data: &'a [u8],
    pos: usize,
    chunk: usize,
}

impl<'a> Iter<'a> {
    pub closed spec fn data(&self) -> Seq<u8> {
        self.data@
    }

    pub closed spec fn pos(&self) -> nat {
        self.pos as nat
    }

    pub closed spec fn chunk(&self) -> nat {
        self.chunk as nat
    }

    /// The next chunk, or nothing once all bytes were handed out.
    pub fn next(&mut self) -> (r: Option<&'a [u8]>)
        requires
            old(self).chunk() > 0,
            old(self).pos() <= old(self).data().len(),
        ensures
            final(self).data() == old(self).data(),
            final(self).chunk() == old(self).chunk(),
            final(self).pos() <= final(self).data().len(),
            old(self).pos() == old(self).data().len() ==> r is None && final(self).pos() == old(
                self,
            ).pos(),
            old(self).pos() < old(self).data().len() ==> {
                let end = if old(self).pos() + old(self).chunk() <= old(self).data().len() {
                    old(self).pos() + old(self).chunk()
                } else {
                    old(self).data().len()
                };
                &&& r matches Some(c)
                &&& c@ == old(self).data().subrange(old(self).pos() as int, end as int)
                &&& final(self).pos() == end
            },
    {
        let n = self.data.len();
        if self.pos >= n {
            return None;
        }
        let end = if self.chunk <= n - self.pos {
            self.pos + self.chunk
        } else {
            n
        };
        let c = slice_subrange(self.data, self.pos, end);
        self.pos = end;
        Some(c)
    }
}

} // verus!
