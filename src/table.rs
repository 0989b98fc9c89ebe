//! Tables, the top-level containers of nftables.
use vstd::prelude::*;
use vstd::slice::{slice_subrange, slice_to_vec};
use vstd::string::StringSliceAdditionalSpecFns;

use crate::align::{NFGENMSG_SIZE, NLMSGHDR_SIZE};
use crate::attr::{
    kinds_view, parse_tree, tree_bytes, tree_get, tree_size, tree_wf, value_fits, AttrKind,
    AttrValue, AttributeSchema, AttributeType, KindView, NfNetlinkAttributes, MAX_ATTR_VALUE,
};
use crate::attr_proof::{
    lemma_fits_from_index, lemma_set_append, lemma_size_bound, lemma_tree_bytes_len,
};
use crate::batch::Batch;
use crate::error::DecodeError;
use crate::nlmsg::{header_bytes, lemma_with_len_shift, with_len, NfNetlinkObject, NfNetlinkWriter};
use crate::sys::{
    NFTA_TABLE_FLAGS, NFTA_TABLE_NAME, NFTA_TABLE_USERDATA, NFT_MSG_DELTABLE, NFT_MSG_NEWTABLE,
    NLM_F_ACK, NLM_F_CREATE,
};
use crate::{MsgType, ProtocolFamily};

verus! {

/// The message type and flags that create or delete an object.
pub open spec fn table_msg_type(msg_type: MsgType) -> u16 {
    match msg_type {
        MsgType::Add => NFT_MSG_NEWTABLE,
        MsgType::Del => NFT_MSG_DELTABLE,
    }
}

pub open spec fn op_flags(msg_type: MsgType) -> u16 {
    match msg_type {
        MsgType::Add => NLM_F_ACK | NLM_F_CREATE,
        MsgType::Del => NLM_F_ACK,
    }
}

/// A table of a protocol family, with an optional name, flags and user data.
#[derive(Debug, PartialEq, Eq)]
pub struct Table {
    family: ProtocolFamily,
    name: Option<Vec<u8>>,
    flags: Option<u32>,
    userdata: Option<Vec<u8>>,
}

/// The attributes of a table: its name with a terminating NUL, its flags and
/// its user data, those that are set.
pub open spec fn table_attrs(name: Option<Seq<u8>>, flags: Option<u32>, userdata: Option<Seq<u8>>) -> Seq<
    (u16, AttrValue),
> {
    let a = match name {
        Some(n) => seq![(NFTA_TABLE_NAME, AttrValue::Bytes(n.push(0u8)))],
        None => Seq::empty(),
    };
    let b = match flags {
        Some(f) => a.push((NFTA_TABLE_FLAGS, AttrValue::U32(f))),
        None => a,
    };
    match userdata {
        Some(u) => b.push((NFTA_TABLE_USERDATA, AttrValue::Bytes(u))),
        None => b,
    }
}

impl Table {
    pub closed spec fn family(&self) -> ProtocolFamily {
        self.family
    }

    pub closed spec fn name(&self) -> Option<Seq<u8>> {
        match self.name {
            Some(n) => Some(n@),
            None => None,
        }
    }

    pub closed spec fn flags(&self) -> Option<u32> {
        self.flags
    }

    pub closed spec fn userdata(&self) -> Option<Seq<u8>> {
        match self.userdata {
            Some(u) => Some(u@),
            None => None,
        }
    }

    pub open spec fn attrs(&self) -> Seq<(u16, AttrValue)> {
        table_attrs(self.name(), self.flags(), self.userdata())
    }

    /// A table of `family` with nothing else set.
    pub fn new(family: ProtocolFamily) -> (r: Table)
        ensures
            r.family() == family,
            r.name() is None,
            r.flags() is None,
            r.userdata() is None,
    {
        Table { family, name: None, flags: None, userdata: None }
    }

    /// The table's attributes as a tree.
    pub fn to_attributes(&self) -> (r: NfNetlinkAttributes)
        ensures
            r@ == self.attrs(),
            tree_wf(r@),
    {
        let mut t = NfNetlinkAttributes::new();
        match &self.name {
            Some(n) => {
                let mut v = n.clone();
                v.push(0u8);
                proof {
                    lemma_set_append(t@, NFTA_TABLE_NAME, AttrValue::Bytes(v@));
                }
                t.set_attr(NFTA_TABLE_NAME, AttributeType::Bytes(v));
                assert(t@ =~= seq![(NFTA_TABLE_NAME, AttrValue::Bytes(n@.push(0u8)))]);
            },
            None => {},
        }
        let ghost a1 = t@;
        assert(forall|i: int| 0 <= i < a1.len() ==> #[trigger] a1[i].0 == NFTA_TABLE_NAME);
        match self.flags {
            Some(f) => {
                proof {
                    lemma_set_append(t@, NFTA_TABLE_FLAGS, AttrValue::U32(f));
                }
                t.set_attr(NFTA_TABLE_FLAGS, AttributeType::U32(f));
            },
            None => {},
        }
        let ghost a2 = t@;
        assert(forall|i: int| 0 <= i < a2.len() ==> #[trigger] a2[i].0 <= NFTA_TABLE_FLAGS);
        match &self.userdata {
            Some(u) => {
                let v = u.clone();
                proof {
                    lemma_set_append(t@, NFTA_TABLE_USERDATA, AttrValue::Bytes(v@));
                }
                t.set_attr(NFTA_TABLE_USERDATA, AttributeType::Bytes(v));
            },
            None => {},
        }
        t
    }
}

impl NfNetlinkObject for Table {
    open spec fn writable(&self) -> bool {
        &&& (self.name() matches Some(n) ==> n.len() + 1 <= MAX_ATTR_VALUE)
        &&& (self.userdata() matches Some(u) ==> u.len() <= MAX_ATTR_VALUE)
    }

    open spec fn message_bytes(&self, msg_type: MsgType, seq: u32) -> Seq<u8> {
        with_len(
            header_bytes(table_msg_type(msg_type), self.family(), op_flags(msg_type), seq, None)
                + tree_bytes(self.attrs()),
            0,
            (20 + tree_size(self.attrs())) as u32,
        )
    }

    fn add_or_remove(&self, writer: &mut NfNetlinkWriter, msg_type: MsgType, seq: u32) {
        let attrs = self.to_attributes();
        let ghost es = attrs@;
        proof {
            assert(forall|i: int| 0 <= i < es.len() ==> #[trigger] value_fits(es[i].1));
            lemma_fits_from_index(es);
            lemma_size_bound(es);
            lemma_tree_bytes_len(es);
        }
        let (ty, flags) = match msg_type {
            MsgType::Add => (NFT_MSG_NEWTABLE, NLM_F_ACK | NLM_F_CREATE),
            MsgType::Del => (NFT_MSG_DELTABLE, NLM_F_ACK),
        };
        let ghost before = writer.buffer();
        let ghost hb = header_bytes(ty, self.family, flags, seq, None);
        writer.write_header(ty, self.family, flags, seq, None);
        attrs.serialize(writer);
        writer.finalize_writing_object();
        proof {
            lemma_with_len_shift(before, hb + tree_bytes(es), 0, (20 + tree_size(es)) as u32);
            assert(before + hb + tree_bytes(es) =~= before + (hb + tree_bytes(es)));
        }
    }
}

impl Table {
    /// Appends the message that creates this table to `batch`.
    pub fn add_to_batch(self, batch: &mut Batch) -> (r: Table)
        requires
            old(batch).wf(),
            self.writable(),
            old(batch).seq() < u32::MAX,
            old(batch).buffer().len() + self.message_bytes(MsgType::Add, old(batch).seq()).len()
                <= usize::MAX,
        ensures
            r == self,
            final(batch).wf(),
            final(batch).buffer() == old(batch).buffer() + self.message_bytes(
                MsgType::Add,
                old(batch).seq(),
            ),
            final(batch).seq() == old(batch).seq() + 1,
            !final(batch).is_empty(),
    {
        batch.add(&self, MsgType::Add);
        self
    }

    pub fn get_family(&self) -> (r: ProtocolFamily)
        ensures
            r == self.family(),
    {
        self.family
    }

    pub fn set_family(&mut self, family: ProtocolFamily)
        ensures
            final(self).family() == family,
            final(self).name() == old(self).name(),
            final(self).flags() == old(self).flags(),
            final(self).userdata() == old(self).userdata(),
    {
        self.family = family;
    }

    /// Sets the name; it is sent with a terminating NUL.
    pub fn set_name(&mut self, name: &str)
        ensures
            final(self).name() == Some(name.spec_bytes()),
            final(self).family() == old(self).family(),
            final(self).flags() == old(self).flags(),
            final(self).userdata() == old(self).userdata(),
    {
        self.name = Some(vstd::slice::slice_to_vec(name.as_bytes()));
    }

    pub fn get_name(&self) -> (r: Option<&Vec<u8>>)
        ensures
            match r {
                Some(n) => self.name() == Some(n@),
                None => self.name() is None,
            },
    {
        self.name.as_ref()
    }

    pub fn set_flags(&mut self, flags: u32)
        ensures
            final(self).flags() == Some(flags),
            final(self).family() == old(self).family(),
            final(self).name() == old(self).name(),
            final(self).userdata() == old(self).userdata(),
    {
        self.flags = Some(flags);
    }

    pub fn get_flags(&self) -> (r: Option<u32>)
        ensures
            r == self.flags(),
    {
        self.flags
    }

    pub fn set_userdata(&mut self, userdata: Vec<u8>)
        ensures
            final(self).userdata() == Some(userdata@),
            final(self).family() == old(self).family(),
            final(self).name() == old(self).name(),
            final(self).flags() == old(self).flags(),
    {
        self.userdata = Some(userdata);
    }
}

/// How the attributes of a table are decoded.
pub open spec fn table_schema_view() -> Seq<(u16, KindView)> {
    seq![
        (NFTA_TABLE_NAME, KindView::Bytes),
        (NFTA_TABLE_FLAGS, KindView::U32),
        (NFTA_TABLE_USERDATA, KindView::Bytes),
    ]
}

pub fn table_schema() -> (r: AttributeSchema)
    ensures
        kinds_view(r.kinds@) == table_schema_view(),
{
    let r = AttributeSchema {
        kinds: vec![
            (NFTA_TABLE_NAME, AttrKind::Bytes),
            (NFTA_TABLE_FLAGS, AttrKind::U32),
            (NFTA_TABLE_USERDATA, AttrKind::Bytes),
        ],
    };
    proof {
        crate::attr_proof::lemma_kinds_view(r.kinds@);
        assert(kinds_view(r.kinds@) =~= table_schema_view());
    }
    r
}

/// `b` without its terminating NUL, if it has one.
pub open spec fn strip_nul(b: Seq<u8>) -> Seq<u8> {
    if b.len() > 0 && b.last() == 0 {
        b.drop_last()
    } else {
        b
    }
}

/// The bytes stored under `ty`, if that is what is stored there.
pub open spec fn bytes_attr(es: Seq<(u16, AttrValue)>, ty: u16) -> Option<Seq<u8>> {
    match tree_get(es, ty) {
        Some(AttrValue::Bytes(b)) => Some(b),
        _ => None,
    }
}

pub open spec fn u32_attr(es: Seq<(u16, AttrValue)>, ty: u16) -> Option<u32> {
    match tree_get(es, ty) {
        Some(AttrValue::U32(x)) => Some(x),
        _ => None,
    }
}

impl Table {
    /// Decodes a table from a message of the kernel's reply: the family of
    /// its family header, and its name (without the terminating NUL), flags
    /// and user data from its attributes.
    pub fn from_message(msg: &[u8]) -> (r: Result<Table, DecodeError>)
        ensures
            msg@.len() < NLMSGHDR_SIZE + NFGENMSG_SIZE ==> r == Err::<Table, DecodeError>(
                DecodeError::BufTooSmall,
            ),
            msg@.len() >= NLMSGHDR_SIZE + NFGENMSG_SIZE ==> {
                let fam = ProtocolFamily::spec_from_code(msg@[16]);
                let parsed = parse_tree(msg@.subrange(20, msg@.len() as int), table_schema_view());
                match r {
                    Ok(t) => {
                        &&& fam == Some(t.family())
                        &&& parsed matches Ok(es)
                        &&& t.name() == match bytes_attr(es, NFTA_TABLE_NAME) {
                            Some(b) => Some(strip_nul(b)),
                            None => None,
                        }
                        &&& t.flags() == u32_attr(es, NFTA_TABLE_FLAGS)
                        &&& t.userdata() == bytes_attr(es, NFTA_TABLE_USERDATA)
                    },
                    Err(e) => {
                        ||| fam is None && e == DecodeError::UnknownProtocolFamily(msg@[16])
                        ||| fam is Some && parsed == Err::<Seq<(u16, AttrValue)>, DecodeError>(e)
                    },
                }
            },
    {
        if msg.len() < NLMSGHDR_SIZE + NFGENMSG_SIZE {
            return Err(DecodeError::BufTooSmall);
        }
        let family = match ProtocolFamily::from_code(msg[16]) {
            Some(f) => f,
            None => {
                return Err(DecodeError::UnknownProtocolFamily(msg[16]));
            },
        };
        let schema = table_schema();
        let attrs = match NfNetlinkAttributes::deserialize(
            slice_subrange(msg, NLMSGHDR_SIZE + NFGENMSG_SIZE, msg.len()),
            &schema,
        ) {
            Ok(a) => a,
            Err(e) => {
                return Err(e);
            },
        };
        let name = match attrs.get_attr(NFTA_TABLE_NAME) {
            Some(AttributeType::Bytes(b)) => {
                let n = b.len();
                if n > 0 && b[n - 1] == 0 {
                    let s = slice_to_vec(slice_subrange(b.as_slice(), 0, n - 1));
                    assert(s@ =~= b@.drop_last());
                    Some(s)
                } else {
                    Some(b.clone())
                }
            },
            _ => None,
        };
        let flags = match attrs.get_attr(NFTA_TABLE_FLAGS) {
            Some(AttributeType::U32(f)) => Some(*f),
            _ => None,
        };
        let userdata = match attrs.get_attr(NFTA_TABLE_USERDATA) {
            Some(AttributeType::Bytes(b)) => Some(b.clone()),
            _ => None,
        };
        Ok(Table { family, name, flags, userdata })
    }
}

} // verus!
