//! Attribute trees: typed type-length-value fields, possibly nested.
use vstd::prelude::*;
use vstd::slice::{slice_subrange, slice_to_vec};

use crate::align::{align4, lemma_align4, pad_netlink_object_with_variable_size, NLATTR_SIZE};
use crate::attr_proof::{
    lemma_count_bound, lemma_entries_view, lemma_fits_index, lemma_get_at, lemma_kinds_view,
    lemma_lookup_at, lemma_schema_of, lemma_set_at, lemma_set_wf, lemma_tree_bytes_concat,
    lemma_tree_bytes_len, lemma_value_bytes_len, lemma_wf_index,
};
use crate::bytes::{
    be16, be32, be64, get_be16, get_be32, get_be64, get_le16, le16, push_be16, push_be32,
    push_be64, push_le16, read_be16, read_be32, read_be64, read_le16,
};
use crate::error::DecodeError;
use crate::nlmsg::{padded, with_len, zeros, NfNetlinkWriter};
use crate::sys::NLA_F_NESTED;

verus! {

broadcast use vstd::std_specs::vec::group_vec_axioms, vstd::seq::group_seq_axioms;

/// The largest value an attribute can carry: its length field is a `u16`
/// that counts its own four-byte header.
pub const MAX_ATTR_VALUE: usize = 65531;

/// The value of an attribute.
#[derive(Debug)]
pub enum AttributeType {
    U8(u8),
    U16(u16),
    U32(u32),
    U64(u64),
    Bytes(Vec<u8>),
    Nested(NfNetlinkAttributes),
}

/// An attribute tree: values keyed by type code, kept in ascending order of
/// type code, each code at most once.
#[derive(Debug)]
pub struct NfNetlinkAttributes {
    pub attributes: Vec<(u16, AttributeType)>,
}

/// The mathematical value of an attribute.
pub enum AttrValue {
    U8(u8),
    U16(u16),
    U32(u32),
    U64(u64),
    Bytes(Seq<u8>),
    Nested(Seq<(u16, AttrValue)>),
}

pub open spec fn value_view(v: AttributeType) -> AttrValue
    decreases v,
{
    match v {
        AttributeType::U8(x) => AttrValue::U8(x),
        AttributeType::U16(x) => AttrValue::U16(x),
        AttributeType::U32(x) => AttrValue::U32(x),
        AttributeType::U64(x) => AttrValue::U64(x),
        AttributeType::Bytes(b) => AttrValue::Bytes(b@),
        AttributeType::Nested(t) => AttrValue::Nested(entries_view(t.attributes@)),
    }
}

pub open spec fn entries_view(s: Seq<(u16, AttributeType)>) -> Seq<(u16, AttrValue)>
    decreases s,
{
    if s.len() == 0 {
        Seq::empty()
    } else {
        seq![(s[0].0, value_view(s[0].1))] + entries_view(s.drop_first())
    }
}

pub open spec fn is_nested(v: AttrValue) -> bool {
    v is Nested
}

/// Bytes of a value on the wire, before padding.
pub open spec fn value_size(v: AttrValue) -> nat
    decreases v,
{
    match v {
        AttrValue::U8(_) => 1,
        AttrValue::U16(_) => 2,
        AttrValue::U32(_) => 4,
        AttrValue::U64(_) => 8,
        AttrValue::Bytes(b) => b.len(),
        AttrValue::Nested(es) => tree_size(es),
    }
}

/// Bytes of a tree on the wire: for each attribute its header and its padded
/// value.
pub open spec fn tree_size(es: Seq<(u16, AttrValue)>) -> nat
    decreases es,
{
    if es.len() == 0 {
        0
    } else {
        (NLATTR_SIZE + align4(value_size(es[0].1)) + tree_size(es.drop_first())) as nat
    }
}

/// The type field of an attribute header: the type code, with the nested
/// flag for a nested value.
pub open spec fn wire_type(ty: u16, v: AttrValue) -> u16 {
    if is_nested(v) {
        ty | NLA_F_NESTED
    } else {
        ty
    }
}

/// The wire form of a value: integers in network order.
pub open spec fn value_bytes(v: AttrValue) -> Seq<u8>
    decreases v,
{
    match v {
        AttrValue::U8(x) => seq![x],
        AttrValue::U16(x) => be16(x),
        AttrValue::U32(x) => be32(x),
        AttrValue::U64(x) => be64(x),
        AttrValue::Bytes(b) => b,
        AttrValue::Nested(es) => tree_bytes(es),
    }
}

/// The wire form of a tree: the attributes in order, each as length, type
/// and padded value.
pub open spec fn tree_bytes(es: Seq<(u16, AttrValue)>) -> Seq<u8>
    decreases es,
{
    if es.len() == 0 {
        Seq::empty()
    } else {
        le16((NLATTR_SIZE + value_size(es[0].1)) as u16) + le16(wire_type(es[0].0, es[0].1))
            + padded(value_bytes(es[0].1)) + tree_bytes(es.drop_first())
    }
}

/// Type codes below the nested flag, in strictly ascending order, in the tree
/// and in each nested tree.
pub open spec fn tree_wf(es: Seq<(u16, AttrValue)>) -> bool
    decreases es,
{
    es.len() > 0 ==> {
        &&& es[0].0 < NLA_F_NESTED
        &&& (es.len() > 1 ==> es[0].0 < es[1].0)
        &&& value_wf(es[0].1)
        &&& tree_wf(es.drop_first())
    }
}

pub open spec fn value_wf(v: AttrValue) -> bool
    decreases v,
{
    match v {
        AttrValue::Nested(es) => tree_wf(es),
        _ => true,
    }
}

/// Every value, nested ones included, fits an attribute's length field.
pub open spec fn tree_fits(es: Seq<(u16, AttrValue)>) -> bool
    decreases es,
{
    es.len() > 0 ==> {
        &&& value_fits(es[0].1)
        &&& tree_fits(es.drop_first())
    }
}

pub open spec fn value_fits(v: AttrValue) -> bool
    decreases v,
{
    &&& value_size(v) <= MAX_ATTR_VALUE
    &&& match v {
        AttrValue::Nested(es) => tree_fits(es),
        _ => true,
    }
}

/// The value stored under `ty`, if any.
pub open spec fn tree_get(es: Seq<(u16, AttrValue)>, ty: u16) -> Option<AttrValue>
    decreases es,
{
    if es.len() == 0 {
        None
    } else if es[0].0 == ty {
        Some(es[0].1)
    } else {
        tree_get(es.drop_first(), ty)
    }
}

/// `es` with `v` stored under `ty`, replacing what was stored there, in
/// ascending order of type code.
pub open spec fn tree_set(es: Seq<(u16, AttrValue)>, ty: u16, v: AttrValue) -> Seq<(u16, AttrValue)>
    decreases es,
{
    if es.len() == 0 {
        seq![(ty, v)]
    } else if es[0].0 == ty {
        seq![(ty, v)] + es.drop_first()
    } else if es[0].0 > ty {
        seq![(ty, v)] + es
    } else {
        seq![es[0]] + tree_set(es.drop_first(), ty, v)
    }
}

/// The tree that storing each entry of `l` in turn builds from an empty one.
pub open spec fn normalize(l: Seq<(u16, AttrValue)>) -> Seq<(u16, AttrValue)>
    decreases l.len(),
{
    if l.len() == 0 {
        Seq::empty()
    } else {
        tree_set(normalize(l.drop_last()), l.last().0, l.last().1)
    }
}

/// How to decode the value of an attribute of a known type code.
#[derive(Debug)]
pub enum AttrKind {
    U8,
    U16,
    U32,
    U64,
    Bytes,
    Nested(AttributeSchema),
}

/// The kinds of the attributes of a tree, by type code. A code without an
/// entry is kept as raw bytes, or as a tree when its nested flag is set.
#[derive(Debug)]
pub struct AttributeSchema {
    pub kinds: Vec<(u16, AttrKind)>,
}

pub enum KindView {
    U8,
    U16,
    U32,
    U64,
    Bytes,
    Nested(Seq<(u16, KindView)>),
}

pub open spec fn kind_view(k: AttrKind) -> KindView
    decreases k,
{
    match k {
        AttrKind::U8 => KindView::U8,
        AttrKind::U16 => KindView::U16,
        AttrKind::U32 => KindView::U32,
        AttrKind::U64 => KindView::U64,
        AttrKind::Bytes => KindView::Bytes,
        AttrKind::Nested(s) => KindView::Nested(kinds_view(s.kinds@)),
    }
}

pub open spec fn kinds_view(s: Seq<(u16, AttrKind)>) -> Seq<(u16, KindView)>
    decreases s,
{
    if s.len() == 0 {
        Seq::empty()
    } else {
        seq![(s[0].0, kind_view(s[0].1))] + kinds_view(s.drop_first())
    }
}

/// The first kind given for `ty`.
pub open spec fn lookup(sch: Seq<(u16, KindView)>, ty: u16) -> Option<KindView>
    decreases sch,
{
    if sch.len() == 0 {
        None
    } else if sch[0].0 == ty {
        Some(sch[0].1)
    } else {
        lookup(sch.drop_first(), ty)
    }
}

/// The kind that describes `v`.
pub open spec fn kind_of(v: AttrValue) -> KindView
    decreases v,
{
    match v {
        AttrValue::U8(_) => KindView::U8,
        AttrValue::U16(_) => KindView::U16,
        AttrValue::U32(_) => KindView::U32,
        AttrValue::U64(_) => KindView::U64,
        AttrValue::Bytes(_) => KindView::Bytes,
        AttrValue::Nested(es) => KindView::Nested(schema_of(es)),
    }
}

/// The schema that describes each attribute of `es`.
pub open spec fn schema_of(es: Seq<(u16, AttrValue)>) -> Seq<(u16, KindView)>
    decreases es,
{
    if es.len() == 0 {
        Seq::empty()
    } else {
        seq![(es[0].0, kind_of(es[0].1))] + schema_of(es.drop_first())
    }
}

/// Decodes the value `val` of an attribute of type `ty`.
pub open spec fn parse_value(val: Seq<u8>, ty: u16, kind: Option<KindView>, nested: bool) -> Result<
    AttrValue,
    DecodeError,
>
    decreases val.len(), 2nat,
{
    let bad = Err(DecodeError::InvalidValueLength(ty));
    match kind {
        Some(KindView::U8) => if val.len() == 1 {
            Ok(AttrValue::U8(val[0]))
        } else {
            bad
        },
        Some(KindView::U16) => if val.len() == 2 {
            Ok(AttrValue::U16(get_be16(val, 0)))
        } else {
            bad
        },
        Some(KindView::U32) => if val.len() == 4 {
            Ok(AttrValue::U32(get_be32(val, 0)))
        } else {
            bad
        },
        Some(KindView::U64) => if val.len() == 8 {
            Ok(AttrValue::U64(get_be64(val, 0)))
        } else {
            bad
        },
        Some(KindView::Bytes) => Ok(AttrValue::Bytes(val)),
        Some(KindView::Nested(sub)) => match parse_tree(val, sub) {
            Ok(es) => Ok(AttrValue::Nested(es)),
            Err(e) => Err(e),
        },
        None => if nested {
            match parse_tree(val, Seq::empty()) {
                Ok(es) => Ok(AttrValue::Nested(es)),
                Err(e) => Err(e),
            }
        } else {
            Ok(AttrValue::Bytes(val))
        },
    }
}

/// Decodes a tree: the attributes of `s` in order, then stored one by one.
pub open spec fn parse_tree(s: Seq<u8>, sch: Seq<(u16, KindView)>) -> Result<
    Seq<(u16, AttrValue)>,
    DecodeError,
>
    decreases s.len(), 1nat,
{
    match parse_list(s, sch) {
        Ok(l) => Ok(normalize(l)),
        Err(e) => Err(e),
    }
}

/// Bytes taken by an attribute whose length field says `len`, of the `n` that
/// remain: its padded length, or what remains.
pub open spec fn attr_step(len: nat, n: nat) -> nat {
    if align4(len) <= n {
        align4(len)
    } else {
        n
    }
}

/// The attributes of `s`, in the order they come.
pub open spec fn parse_list(s: Seq<u8>, sch: Seq<(u16, KindView)>) -> Result<
    Seq<(u16, AttrValue)>,
    DecodeError,
>
    decreases s.len(), 0nat,
{
    if s.len() == 0 {
        Ok(Seq::empty())
    } else if s.len() < NLATTR_SIZE {
        Err(DecodeError::InvalidAttributeLength)
    } else {
        let len = get_le16(s, 0) as nat;
        let raw = get_le16(s, 2);
        if len < NLATTR_SIZE || len > s.len() {
            Err(DecodeError::InvalidAttributeLength)
        } else {
            let ty = raw & 0x7fff;
            let step = attr_step(len, s.len());
            match parse_value(s.subrange(4, len as int), ty, lookup(sch, ty), raw & NLA_F_NESTED != 0) {
                Err(e) => Err(e),
                Ok(v) => match parse_list(s.subrange(step as int, s.len() as int), sch) {
                    Err(e) => Err(e),
                    Ok(rest) => Ok(seq![(ty, v)] + rest),
                },
            }
        }
    }
}

impl View for AttributeType {
    type V = AttrValue;

    open spec fn view(&self) -> AttrValue {
        value_view(*self)
    }
}

impl View for NfNetlinkAttributes {
    type V = Seq<(u16, AttrValue)>;

    open spec fn view(&self) -> Seq<(u16, AttrValue)> {
        entries_view(self.attributes@)
    }
}

/// The kind an optional reference to a kind stands for.
pub open spec fn opt_kind_view(k: Option<&AttrKind>) -> Option<KindView> {
    match k {
        Some(k) => Some(kind_view(*k)),
        None => None,
    }
}

/// Appends `n` zero bytes.
fn push_zeros(out: &mut Vec<u8>, n: usize)
    ensures
        final(out)@ == old(out)@ + zeros(n as nat),
{
    let mut i: usize = 0;
    while i < n
        invariant
            i <= n,
            out@ == old(out)@ + zeros(i as nat),
        decreases n - i,
    {
        out.push(0u8);
        i = i + 1;
        assert(out@ =~= old(out)@ + zeros(i as nat));
    }
}

impl AttributeType {
    pub fn is_nested(&self) -> (r: bool)
        ensures
            r == is_nested(self@),
    {
        match self {
            AttributeType::Nested(_) => true,
            _ => false,
        }
    }

    /// Bytes of the value on the wire, before padding.
    pub fn get_size(&self) -> (r: usize)
        requires
            value_wf(self@),
            value_fits(self@),
        ensures
            r == value_size(self@),
        decreases self,
    {
        match self {
            AttributeType::U8(_) => 1,
            AttributeType::U16(_) => 2,
            AttributeType::U32(_) => 4,
            AttributeType::U64(_) => 8,
            AttributeType::Bytes(b) => b.len(),
            AttributeType::Nested(t) => t.get_size(),
        }
    }

    /// Appends the wire form of the value, integers in network order.
    pub fn write_payload(&self, out: &mut Vec<u8>)
        requires
            value_wf(self@),
            value_fits(self@),
        ensures
            final(out)@ == old(out)@ + value_bytes(self@),
        decreases self,
    {
        match self {
            AttributeType::U8(x) => {
                out.push(*x);
                assert(out@ =~= old(out)@ + seq![*x]);
            },
            AttributeType::U16(x) => push_be16(out, *x),
            AttributeType::U32(x) => push_be32(out, *x),
            AttributeType::U64(x) => push_be64(out, *x),
            AttributeType::Bytes(b) => {
                let mut i: usize = 0;
                while i < b.len()
                    invariant
                        i <= b@.len(),
                        out@ == old(out)@ + b@.subrange(0, i as int),
                    decreases b@.len() - i,
                {
                    out.push(b[i]);
                    i = i + 1;
                    assert(out@ =~= old(out)@ + b@.subrange(0, i as int));
                }
                assert(b@.subrange(0, i as int) =~= b@);
            },
            AttributeType::Nested(t) => t.write_payload(out),
        }
    }
}

impl NfNetlinkAttributes {
    /// An empty tree.
    pub fn new() -> (r: NfNetlinkAttributes)
        ensures
            r@ == Seq::<(u16, AttrValue)>::empty(),
            tree_wf(r@),
    {
        let r = NfNetlinkAttributes { attributes: Vec::new() };
        assert(r@ =~= Seq::<(u16, AttrValue)>::empty());
        r
    }

    /// Stores `obj` under `ty`, replacing any value stored there.
    pub fn set_attr(&mut self, ty: u16, obj: AttributeType)
        requires
            tree_wf(old(self)@),
            ty < NLA_F_NESTED,
            value_wf(obj@),
        ensures
            final(self)@ == tree_set(old(self)@, ty, obj@),
            tree_wf(final(self)@),
    {
        proof {
            lemma_entries_view(self.attributes@);
        }
        let ghost es = self@;
        let n = self.attributes.len();
        let mut i: usize = 0;
        while i < n && self.attributes[i].0 < ty
            invariant
                i <= n,
                n == self.attributes@.len(),
                self@ == es,
                es.len() == n,
                forall|j: int| 0 <= j < n ==> #[trigger] es[j].0 == self.attributes@[j].0,
                forall|j: int| 0 <= j < i ==> #[trigger] es[j].0 < ty,
            decreases n - i,
        {
            i = i + 1;
        }
        proof {
            lemma_set_at(es, i as int, ty, obj@);
            lemma_set_wf(es, i as int, ty, obj@);
        }
        let ghost v = obj@;
        if i < n && self.attributes[i].0 == ty {
            self.attributes.set(i, (ty, obj));
            proof {
                lemma_entries_view(self.attributes@);
                assert(self@ =~= es.update(i as int, (ty, v)));
            }
        } else {
            self.attributes.insert(i, (ty, obj));
            proof {
                lemma_entries_view(self.attributes@);
                assert(self@ =~= es.insert(i as int, (ty, v)));
            }
        }
    }

    /// The value stored under `ty`; none is a normal outcome.
    pub fn get_attr(&self, ty: u16) -> (r: Option<&AttributeType>)
        ensures
            match r {
                Some(v) => tree_get(self@, ty) == Some(v@),
                None => tree_get(self@, ty) is None,
            },
    {
        proof {
            lemma_entries_view(self.attributes@);
        }
        let n = self.attributes.len();
        let mut i: usize = 0;
        while i < n
            invariant
                i <= n,
                n == self.attributes@.len(),
                self@.len() == n,
                forall|j: int|
                    0 <= j < n ==> #[trigger] self@[j] == (self.attributes@[j].0, self.attributes@[j].1@),
                forall|j: int| 0 <= j < i ==> #[trigger] self@[j].0 != ty,
            decreases n - i,
        {
            if self.attributes[i].0 == ty {
                proof {
                    assert(self@[i as int].0 == ty);
                    lemma_get_at(self@, i as int, ty);
                }
                return Some(&self.attributes[i].1);
            }
            i = i + 1;
        }
        proof {
            lemma_get_at(self@, n as int, ty);
        }
        None
    }

    /// Bytes of the tree on the wire.
    pub fn get_size(&self) -> (r: usize)
        requires
            tree_wf(self@),
            tree_fits(self@),
        ensures
            r == tree_size(self@),
        decreases self,
    {
        proof {
            lemma_entries_view(self.attributes@);
            lemma_count_bound(self@);
            lemma_fits_index(self@);
            lemma_wf_index(self@);
        }
        let ghost es = self@;
        let n = self.attributes.len();
        let mut i: usize = n;
        let mut acc: usize = 0;
        assert(es.subrange(n as int, n as int) =~= Seq::<(u16, AttrValue)>::empty());
        while i > 0
            invariant
                i <= n,
                n == es.len(),
                n <= NLA_F_NESTED,
                es == self@,
                n == self.attributes@.len(),
                forall|j: int|
                    0 <= j < n ==> #[trigger] es[j] == (self.attributes@[j].0, self.attributes@[j].1@),
                acc == tree_size(es.subrange(i as int, n as int)),
                acc <= 65536 * (n - i),
                forall|j: int| 0 <= j < n ==> #[trigger] value_fits(es[j].1) && value_wf(es[j].1),
            decreases i,
        {
            i = i - 1;
            proof {
                assert(es[i as int] == (self.attributes@[i as int].0, self.attributes@[i as int].1@));
                assert(value_fits(es[i as int].1) && value_wf(es[i as int].1));
                assert(decreases_to!(*self => self.attributes));
                assert(decreases_to!(self.attributes => self.attributes@));
                assert(decreases_to!(self.attributes@ => self.attributes@[i as int]));
                assert(decreases_to!(self.attributes@[i as int] => self.attributes@[i as int].1));
            }
            let sz = self.attributes[i].1.get_size();
            proof {
                lemma_align4(sz as nat);
                assert(es[i as int].1 == self.attributes@[i as int].1@);
            }
            let p = pad_netlink_object_with_variable_size(sz);
            acc = acc + NLATTR_SIZE + p;
            proof {
                let sub = es.subrange(i as int, n as int);
                assert(sub.drop_first() =~= es.subrange(i + 1, n as int));
                assert(sub[0] == es[i as int]);
            }
        }
        assert(es.subrange(0, n as int) =~= es);
        acc
    }

    /// Appends the wire form of the tree: each attribute in ascending order
    /// of type code, as header and padded value.
    pub fn write_payload(&self, out: &mut Vec<u8>)
        requires
            tree_wf(self@),
            tree_fits(self@),
        ensures
            final(out)@ == old(out)@ + tree_bytes(self@),
        decreases self,
    {
        proof {
            lemma_entries_view(self.attributes@);
            lemma_fits_index(self@);
            lemma_wf_index(self@);
        }
        let ghost es = self@;
        let n = self.attributes.len();
        let mut i: usize = 0;
        assert(es.subrange(0, 0) =~= Seq::<(u16, AttrValue)>::empty());
        assert(old(out)@ + tree_bytes(es.subrange(0, 0)) =~= old(out)@);
        while i < n
            invariant
                i <= n,
                n == es.len(),
                es == self@,
                n == self.attributes@.len(),
                forall|j: int|
                    0 <= j < n ==> #[trigger] es[j] == (self.attributes@[j].0, self.attributes@[j].1@),
                out@ == old(out)@ + tree_bytes(es.subrange(0, i as int)),
                forall|j: int|
                    0 <= j < n ==> #[trigger] value_fits(es[j].1) && value_wf(es[j].1) && es[j].0
                        < NLA_F_NESTED,
            decreases n - i,
        {
            let ghost before = out@;
            proof {
                assert(decreases_to!(*self => self.attributes));
                assert(decreases_to!(self.attributes => self.attributes@));
                assert(decreases_to!(self.attributes@ => self.attributes@[i as int]));
                assert(decreases_to!(self.attributes@[i as int] => self.attributes@[i as int].1));
            }
            let e = &self.attributes[i];
            proof {
                assert(es[i as int] == (e.0, e.1@));
                assert(value_fits(es[i as int].1) && value_wf(es[i as int].1) && es[i as int].0
                    < NLA_F_NESTED);
            }
            let sz = e.1.get_size();
            let ty = if e.1.is_nested() {
                e.0 | NLA_F_NESTED
            } else {
                e.0
            };
            push_le16(out, (NLATTR_SIZE + sz) as u16);
            push_le16(out, ty);
            e.1.write_payload(out);
            proof {
                lemma_align4(sz as nat);
                lemma_value_bytes_len(e.1@);
            }
            let p = pad_netlink_object_with_variable_size(sz);
            push_zeros(out, p - sz);
            proof {
                let one = seq![es[i as int]];
                assert(es.subrange(0, i + 1) =~= es.subrange(0, i as int) + one);
                lemma_tree_bytes_concat(es.subrange(0, i as int), one);
                assert(one.drop_first() =~= Seq::<(u16, AttrValue)>::empty());
                let h = le16((NLATTR_SIZE + value_size(e.1@)) as u16) + le16(wire_type(e.0, e.1@))
                    + padded(value_bytes(e.1@));
                assert(tree_bytes(one) == h + tree_bytes(one.drop_first()));
                assert(tree_bytes(one) =~= h);
                assert(out@ =~= before + h);
            }
            i = i + 1;
        }
        assert(es.subrange(0, n as int) =~= es);
    }

    /// Appends the wire form of the tree to the message being written.
    pub fn serialize(&self, writer: &mut NfNetlinkWriter)
        requires
            tree_wf(self@),
            tree_fits(self@),
            old(writer).wf(),
            old(writer).open_header() is Some,
            old(writer).buffer().len() - old(writer).open_header().unwrap() + tree_size(self@)
                <= u32::MAX,
        ensures
            final(writer).wf(),
            final(writer).buffer() == with_len(
                old(writer).buffer() + tree_bytes(self@),
                old(writer).open_header().unwrap() as int,
                (old(writer).declared_len() + tree_size(self@)) as u32,
            ),
            final(writer).open_header() == old(writer).open_header(),
            final(writer).declared_len() == old(writer).declared_len() + tree_size(self@),
    {
        let mut out: Vec<u8> = Vec::new();
        self.write_payload(&mut out);
        proof {
            lemma_tree_bytes_len(self@);
            lemma_align4(tree_size(self@));
            assert(out@ =~= tree_bytes(self@));
            assert(padded(out@) =~= out@);
        }
        writer.add_data(out.as_slice());
    }
}

/// The kind that describes `v`.
pub fn kind_of_value(v: &AttributeType) -> (r: AttrKind)
    ensures
        kind_view(r) == kind_of(v@),
    decreases v,
{
    match v {
        AttributeType::U8(_) => AttrKind::U8,
        AttributeType::U16(_) => AttrKind::U16,
        AttributeType::U32(_) => AttrKind::U32,
        AttributeType::U64(_) => AttrKind::U64,
        AttributeType::Bytes(_) => AttrKind::Bytes,
        AttributeType::Nested(t) => AttrKind::Nested(AttributeSchema::describing(t)),
    }
}

impl AttributeSchema {
    /// The schema that gives each attribute of `tree` its own kind.
    pub fn describing(tree: &NfNetlinkAttributes) -> (r: AttributeSchema)
        ensures
            kinds_view(r.kinds@) == schema_of(tree@),
        decreases tree,
    {
        proof {
            lemma_entries_view(tree.attributes@);
            lemma_schema_of(tree@);
        }
        let n = tree.attributes.len();
        let mut kinds: Vec<(u16, AttrKind)> = Vec::new();
        let mut i: usize = 0;
        while i < n
            invariant
                i <= n,
                n == tree.attributes@.len(),
                kinds@.len() == i,
                forall|j: int|
                    0 <= j < i ==> #[trigger] kinds@[j].0 == tree.attributes@[j].0 && kind_view(
                        kinds@[j].1,
                    ) == kind_of(tree.attributes@[j].1@),
            decreases n - i,
        {
            proof {
                assert(decreases_to!(*tree => tree.attributes));
                assert(decreases_to!(tree.attributes => tree.attributes@));
                assert(decreases_to!(tree.attributes@ => tree.attributes@[i as int]));
                assert(decreases_to!(tree.attributes@[i as int] => tree.attributes@[i as int].1));
            }
            let e = &tree.attributes[i];
            let k = kind_of_value(&e.1);
            kinds.push((e.0, k));
            i = i + 1;
        }
        let r = AttributeSchema { kinds };
        proof {
            lemma_kinds_view(r.kinds@);
            assert forall|j: int| 0 <= j < n implies kinds_view(r.kinds@)[j] == schema_of(tree@)[j] by {
                assert(tree@[j] == (tree.attributes@[j].0, tree.attributes@[j].1@));
            }
            assert(kinds_view(r.kinds@) =~= schema_of(tree@));
        }
        r
    }

    /// A schema that knows no type code.
    pub fn new() -> (r: AttributeSchema)
        ensures
            kinds_view(r.kinds@) == Seq::<(u16, KindView)>::empty(),
    {
        AttributeSchema { kinds: Vec::new() }
    }

    /// The kind given first for `ty`.
    pub fn lookup_kind(&self, ty: u16) -> (r: Option<&AttrKind>)
        ensures
            opt_kind_view(r) == lookup(kinds_view(self.kinds@), ty),
    {
        proof {
            lemma_kinds_view(self.kinds@);
        }
        let ghost sch = kinds_view(self.kinds@);
        let n = self.kinds.len();
        let mut i: usize = 0;
        while i < n
            invariant
                i <= n,
                n == self.kinds@.len(),
                sch == kinds_view(self.kinds@),
                sch.len() == n,
                forall|j: int|
                    0 <= j < n ==> #[trigger] sch[j] == (self.kinds@[j].0, kind_view(self.kinds@[j].1)),
                forall|j: int| 0 <= j < i ==> #[trigger] sch[j].0 != ty,
            decreases n - i,
        {
            if self.kinds[i].0 == ty {
                proof {
                    assert(sch[i as int].0 == ty);
                    lemma_lookup_at(sch, i as int, ty);
                }
                let k = &self.kinds[i].1;
                assert(kind_view(*k) == sch[i as int].1);
                return Some(k);
            }
            i = i + 1;
        }
        proof {
            lemma_lookup_at(sch, n as int, ty);
        }
        None
    }
}

/// Decodes the value `val` of an attribute of type `ty`, of the given kind,
/// or of none: then raw bytes, or a tree if `nested`.
pub fn parse_value_exec(val: &[u8], ty: u16, kind: Option<&AttrKind>, nested: bool) -> (r: Result<
    AttributeType,
    DecodeError,
>)
    ensures
        match r {
            Ok(v) => parse_value(val@, ty, opt_kind_view(kind), nested) == Ok::<AttrValue, DecodeError>(v@)
                && value_wf(v@),
            Err(e) => parse_value(val@, ty, opt_kind_view(kind), nested) == Err::<AttrValue, DecodeError>(e),
        },
    decreases val@.len(), 2nat,
{
    match kind {
        Some(AttrKind::U8) => if val.len() == 1 {
            Ok(AttributeType::U8(val[0]))
        } else {
            Err(DecodeError::InvalidValueLength(ty))
        },
        Some(AttrKind::U16) => if val.len() == 2 {
            Ok(AttributeType::U16(read_be16(val, 0)))
        } else {
            Err(DecodeError::InvalidValueLength(ty))
        },
        Some(AttrKind::U32) => if val.len() == 4 {
            Ok(AttributeType::U32(read_be32(val, 0)))
        } else {
            Err(DecodeError::InvalidValueLength(ty))
        },
        Some(AttrKind::U64) => if val.len() == 8 {
            Ok(AttributeType::U64(read_be64(val, 0)))
        } else {
            Err(DecodeError::InvalidValueLength(ty))
        },
        Some(AttrKind::Bytes) => Ok(AttributeType::Bytes(slice_to_vec(val))),
        Some(AttrKind::Nested(sub)) => match NfNetlinkAttributes::deserialize(val, sub) {
            Ok(t) => Ok(AttributeType::Nested(t)),
            Err(e) => Err(e),
        },
        None => if nested {
            let empty = AttributeSchema::new();
            match NfNetlinkAttributes::deserialize(val, &empty) {
                Ok(t) => Ok(AttributeType::Nested(t)),
                Err(e) => Err(e),
            }
        } else {
            Ok(AttributeType::Bytes(slice_to_vec(val)))
        },
    }
}

impl NfNetlinkAttributes {
    /// Decodes a tree: reads the attributes of `buf` one after another and
    /// stores each in turn. Codes the schema gives a kind to are decoded as
    /// that kind; others are kept as raw bytes, or as trees when flagged
    /// nested. A length field that runs past the buffer, or a value of the
    /// wrong size for its kind, fails the whole decoding.
    pub fn deserialize(buf: &[u8], schema: &AttributeSchema) -> (r: Result<NfNetlinkAttributes, DecodeError>)
        ensures
            match r {
                Ok(t) => parse_tree(buf@, kinds_view(schema.kinds@)) == Ok::<
                    Seq<(u16, AttrValue)>,
                    DecodeError,
                >(t@) && tree_wf(t@),
                Err(e) => parse_tree(buf@, kinds_view(schema.kinds@)) == Err::<
                    Seq<(u16, AttrValue)>,
                    DecodeError,
                >(e),
            },
        decreases buf@.len(), 1nat,
    {
        let ghost sch = kinds_view(schema.kinds@);
        let n = buf.len();
        let mut tree = NfNetlinkAttributes::new();
        let mut off: usize = 0;
        let ghost mut acc: Seq<(u16, AttrValue)> = Seq::empty();
        assert(buf@.subrange(0, n as int) =~= buf@);
        assert(acc + Seq::<(u16, AttrValue)>::empty() =~= acc);
        while off < n
            invariant
                off <= n,
                n == buf@.len(),
                sch == kinds_view(schema.kinds@),
                tree_wf(tree@),
                tree@ == normalize(acc),
                match parse_list(buf@.subrange(off as int, n as int), sch) {
                    Ok(rest) => parse_list(buf@, sch) == Ok::<Seq<(u16, AttrValue)>, DecodeError>(
                        acc + rest,
                    ),
                    Err(e) => parse_list(buf@, sch) == Err::<Seq<(u16, AttrValue)>, DecodeError>(e),
                },
            decreases n - off,
        {
            let ghost s = buf@.subrange(off as int, n as int);
            if n - off < NLATTR_SIZE {
                assert(parse_list(s, sch) == Err::<Seq<(u16, AttrValue)>, DecodeError>(
                    DecodeError::InvalidAttributeLength,
                ));
                return Err(DecodeError::InvalidAttributeLength);
            }
            let len = read_le16(buf, off) as usize;
            let raw = read_le16(buf, off + 2);
            assert(get_le16(s, 0) == get_le16(buf@, off as int));
            assert(get_le16(s, 2) == get_le16(buf@, off + 2));
            if len < NLATTR_SIZE || len > n - off {
                assert(parse_list(s, sch) == Err::<Seq<(u16, AttrValue)>, DecodeError>(
                    DecodeError::InvalidAttributeLength,
                ));
                return Err(DecodeError::InvalidAttributeLength);
            }
            let ty = raw & 0x7fff;
            let nested = raw & NLA_F_NESTED != 0;
            let val = slice_subrange(buf, off + 4, off + len);
            assert(val@ =~= s.subrange(4, len as int));
            let kind = schema.lookup_kind(ty);
            let v = match parse_value_exec(val, ty, kind, nested) {
                Ok(v) => v,
                Err(e) => {
                    assert(parse_list(s, sch) == Err::<Seq<(u16, AttrValue)>, DecodeError>(e));
                    return Err(e);
                },
            };
            proof {
                lemma_align4(len as nat);
            }
            let p = pad_netlink_object_with_variable_size(len);
            let step = if p <= n - off {
                p
            } else {
                n - off
            };
            assert(buf@.subrange(off + step, n as int) =~= s.subrange(step as int, s.len() as int));
            assert(ty < NLA_F_NESTED) by (bit_vector)
                requires
                    ty == raw & 0x7fff,
            ;
            let ghost entry = (ty, v@);
            assert(attr_step(len as nat, s.len()) == step);
            assert(parse_value(s.subrange(4, len as int), ty, lookup(sch, ty), nested) == Ok::<
                AttrValue,
                DecodeError,
            >(v@));
            tree.set_attr(ty, v);
            proof {
                assert((acc.push(entry)).drop_last() =~= acc);
                let rest_after = parse_list(s.subrange(step as int, s.len() as int), sch);
                match rest_after {
                    Ok(r2) => {
                        assert(acc + (seq![entry] + r2) =~= acc.push(entry) + r2);
                    },
                    Err(_) => {},
                }
                acc = acc.push(entry);
            }
            off = off + step;
        }
        assert(buf@.subrange(n as int, n as int) =~= Seq::<u8>::empty());
        assert(acc + Seq::<(u16, AttrValue)>::empty() =~= acc);
        Ok(tree)
    }
}

/// A value written as the payload of an attribute or of a message.
pub trait NfNetlinkAttribute {
    /// Whether the value can be written: each of its parts fits an attribute.
    spec fn writable(&self) -> bool;

    /// The bytes `write_payload` appends.
    spec fn payload(&self) -> Seq<u8>;

    /// Whether the value is written with the nested flag.
    spec fn nested(&self) -> bool;

    fn is_nested(&self) -> (r: bool)
        ensures
            r == self.nested(),
    ;

    fn get_size(&self) -> (r: usize)
        requires
            self.writable(),
        ensures
            r == self.payload().len(),
    ;

    fn write_payload(&self, out: &mut Vec<u8>)
        requires
            self.writable(),
        ensures
            final(out)@ == old(out)@ + self.payload(),
    ;
}

impl NfNetlinkAttribute for AttributeType {
    open spec fn writable(&self) -> bool {
        value_wf(self@) && value_fits(self@)
    }

    open spec fn payload(&self) -> Seq<u8> {
        value_bytes(self@)
    }

    open spec fn nested(&self) -> bool {
        is_nested(self@)
    }

    fn is_nested(&self) -> (r: bool) {
        AttributeType::is_nested(self)
    }

    fn get_size(&self) -> (r: usize) {
        proof {
            lemma_value_bytes_len(self@);
        }
        AttributeType::get_size(self)
    }

    fn write_payload(&self, out: &mut Vec<u8>) {
        AttributeType::write_payload(self, out)
    }
}

impl NfNetlinkAttribute for NfNetlinkAttributes {
    open spec fn writable(&self) -> bool {
        tree_wf(self@) && tree_fits(self@)
    }

    open spec fn payload(&self) -> Seq<u8> {
        tree_bytes(self@)
    }

    open spec fn nested(&self) -> bool {
        false
    }

    fn is_nested(&self) -> (r: bool) {
        false
    }

    fn get_size(&self) -> (r: usize) {
        proof {
            lemma_tree_bytes_len(self@);
        }
        NfNetlinkAttributes::get_size(self)
    }

    fn write_payload(&self, out: &mut Vec<u8>) {
        NfNetlinkAttributes::write_payload(self, out)
    }
}

} // verus!
