//! What holds of attribute trees: sizes, lookups, and decoding what was
//! encoded.
use vstd::prelude::*;

use crate::align::{align4, lemma_align4, NLATTR_SIZE};
use crate::attr::{
    attr_step, is_nested, kind_of, lookup, normalize, parse_list, parse_tree, parse_value, schema_of, tree_bytes,
    tree_fits, tree_set, tree_size, tree_wf, value_bytes, value_fits, value_size, value_wf, wire_type,
    AttrValue, KindView, entries_view, value_view, kinds_view, kind_view, tree_get, AttributeType,
    AttrKind, };
use crate::bytes::{
    be16, be32, be64, get_le16, le16, lemma_be16_read, lemma_be32_read, lemma_be64_read,
    lemma_le16_read,
};
use crate::nlmsg::padded;
use crate::sys::NLA_F_NESTED;

verus! {

broadcast use vstd::seq::group_seq_axioms;

/// Type codes in strictly ascending order.
pub open spec fn sorted_keys(es: Seq<(u16, AttrValue)>) -> bool {
    forall|i: int, j: int| 0 <= i < j < es.len() ==> es[i].0 < es[j].0
}

pub proof fn lemma_padded_len(b: Seq<u8>)
    ensures
        padded(b).len() == align4(b.len()),
        padded(b).subrange(0, b.len() as int) == b,
{
    lemma_align4(b.len());
    assert(padded(b).subrange(0, b.len() as int) =~= b);
}

/// The encoded size of a value is what `value_size` says.
pub proof fn lemma_value_bytes_len(v: AttrValue)
    ensures
        value_bytes(v).len() == value_size(v),
    decreases v,
{
    match v {
        AttrValue::Nested(es) => lemma_tree_bytes_len(es),
        _ => {},
    }
}

/// The encoded size of a tree is what `tree_size` says.
pub proof fn lemma_tree_bytes_len(es: Seq<(u16, AttrValue)>)
    ensures
        tree_bytes(es).len() == tree_size(es),
        tree_size(es) % 4 == 0,
    decreases es,
{
    if es.len() > 0 {
        lemma_value_bytes_len(es[0].1);
        lemma_padded_len(value_bytes(es[0].1));
        lemma_align4(value_size(es[0].1));
        lemma_tree_bytes_len(es.drop_first());
    }
}

/// A well-formed tree is sorted, and each of its values is well-formed.
pub proof fn lemma_wf_index(es: Seq<(u16, AttrValue)>)
    requires
        tree_wf(es),
    ensures
        sorted_keys(es),
        forall|i: int| 0 <= i < es.len() ==> #[trigger] es[i].0 < NLA_F_NESTED && value_wf(es[i].1),
    decreases es,
{
    if es.len() > 0 {
        let t = es.drop_first();
        lemma_wf_index(t);
        assert forall|i: int| 0 <= i < es.len() implies #[trigger] es[i].0 < NLA_F_NESTED && value_wf(
            es[i].1,
        ) by {
            if i > 0 {
                assert(es[i] == t[i - 1]);
            }
        }
        assert forall|i: int, j: int| 0 <= i < j < es.len() implies es[i].0 < es[j].0 by {
            if i > 0 {
                assert(es[i] == t[i - 1]);
                assert(es[j] == t[j - 1]);
            } else if j > 1 {
                assert(es[1] == t[0]);
                assert(es[j] == t[j - 1]);
            }
        }
    }
}

pub proof fn lemma_fits_index(es: Seq<(u16, AttrValue)>)
    requires
        tree_fits(es),
    ensures
        forall|i: int| 0 <= i < es.len() ==> #[trigger] value_fits(es[i].1),
    decreases es,
{
    if es.len() > 0 {
        let t = es.drop_first();
        lemma_fits_index(t);
        assert forall|i: int| 0 <= i < es.len() implies #[trigger] value_fits(es[i].1) by {
            if i > 0 {
                assert(es[i] == t[i - 1]);
            }
        }
    }
}

pub proof fn lemma_schema_of(es: Seq<(u16, AttrValue)>)
    ensures
        schema_of(es).len() == es.len(),
        forall|i: int| 0 <= i < es.len() ==> #[trigger] schema_of(es)[i] == (es[i].0, kind_of(es[i].1)),
    decreases es,
{
    if es.len() > 0 {
        let t = es.drop_first();
        lemma_schema_of(t);
        assert forall|i: int| 0 <= i < es.len() implies #[trigger] schema_of(es)[i] == (
            es[i].0,
            kind_of(es[i].1),
        ) by {
            if i > 0 {
                assert(es[i] == t[i - 1]);
                assert(schema_of(es)[i] == schema_of(t)[i - 1]);
            }
        }
    }
}

pub proof fn lemma_lookup(sch: Seq<(u16, KindView)>, i: int, ty: u16)
    requires
        0 <= i < sch.len(),
        sch[i].0 == ty,
        forall|j: int| 0 <= j < i ==> #[trigger] sch[j].0 != ty,
    ensures
        lookup(sch, ty) == Some(sch[i].1),
    decreases i,
{
    if i > 0 {
        let t = sch.drop_first();
        assert(sch[0].0 != ty);
        assert forall|j: int| 0 <= j < i - 1 implies #[trigger] t[j].0 != ty by {
            assert(t[j] == sch[j + 1]);
        }
        lemma_lookup(t, i - 1, ty);
    }
}

/// Storing under a code above all others appends.
pub proof fn lemma_set_append(es: Seq<(u16, AttrValue)>, ty: u16, v: AttrValue)
    requires
        forall|i: int| 0 <= i < es.len() ==> #[trigger] es[i].0 < ty,
    ensures
        tree_set(es, ty, v) == es.push((ty, v)),
    decreases es,
{
    if es.len() > 0 {
        let t = es.drop_first();
        assert forall|i: int| 0 <= i < t.len() implies #[trigger] t[i].0 < ty by {
            assert(t[i] == es[i + 1]);
        }
        lemma_set_append(t, ty, v);
        assert(seq![es[0]] + t.push((ty, v)) =~= es.push((ty, v)));
    }
}

/// Storing the entries of a sorted sequence one by one rebuilds it.
pub proof fn lemma_normalize_sorted(es: Seq<(u16, AttrValue)>)
    requires
        sorted_keys(es),
    ensures
        normalize(es) == es,
    decreases es.len(),
{
    if es.len() > 0 {
        let init = es.drop_last();
        assert(sorted_keys(init));
        lemma_normalize_sorted(init);
        assert forall|i: int| 0 <= i < init.len() implies #[trigger] init[i].0 < es.last().0 by {
            assert(init[i] == es[i]);
        }
        lemma_set_append(init, es.last().0, es.last().1);
        assert(init.push(es.last()) =~= es);
    }
}

proof fn lemma_type_bits(ty: u16)
    requires
        ty < 0x8000,
    ensures
        (ty | 0x8000u16) & 0x7fffu16 == ty,
        (ty | 0x8000u16) & 0x8000u16 != 0,
        ty & 0x7fffu16 == ty,
        ty & 0x8000u16 == 0,
{
    assert((ty | 0x8000u16) & 0x7fffu16 == ty) by (bit_vector)
        requires
            ty < 0x8000u16,
    ;
    assert((ty | 0x8000u16) & 0x8000u16 != 0) by (bit_vector);
    assert(ty & 0x7fffu16 == ty) by (bit_vector)
        requires
            ty < 0x8000u16,
    ;
    assert(ty & 0x8000u16 == 0) by (bit_vector)
        requires
            ty < 0x8000u16,
    ;
}

/// Decoding the wire form of a value with the kind that describes it gives
/// the value back.
pub proof fn lemma_value_round_trip(v: AttrValue, ty: u16, nested: bool)
    requires
        value_wf(v),
        value_fits(v),
    ensures
        parse_value(value_bytes(v), ty, Some(kind_of(v)), nested) == Ok::<AttrValue, crate::error::DecodeError>(v),
    decreases v,
{
    match v {
        AttrValue::U8(x) => {},
        AttrValue::U16(x) => {
            assert(be16(x).subrange(0, 2) =~= be16(x));
            lemma_be16_read(be16(x), 0, x);
        },
        AttrValue::U32(x) => {
            assert(be32(x).subrange(0, 4) =~= be32(x));
            lemma_be32_read(be32(x), 0, x);
        },
        AttrValue::U64(x) => {
            assert(be64(x).subrange(0, 8) =~= be64(x));
            lemma_be64_read(be64(x), 0, x);
        },
        AttrValue::Bytes(b) => {},
        AttrValue::Nested(es) => {
            lemma_round_trip(es);
        },
    }
}

/// Decoding the wire form of attributes gives them back in order, when the
/// schema describes each of them.
#[verifier::rlimit(40)]
proof fn lemma_list_round_trip(es: Seq<(u16, AttrValue)>, sch: Seq<(u16, KindView)>)
    requires
        forall|i: int|
            0 <= i < es.len() ==> {
                &&& #[trigger] es[i].0 < NLA_F_NESTED
                &&& value_fits(es[i].1)
                &&& parse_value(value_bytes(es[i].1), es[i].0, lookup(sch, es[i].0), is_nested(es[i].1)) == Ok::<AttrValue, crate::error::DecodeError>(es[i].1)
            },
    ensures
        parse_list(tree_bytes(es), sch) == Ok::<Seq<(u16, AttrValue)>, crate::error::DecodeError>(es),
    decreases es,
{
    if es.len() > 0 {
        let t = es.drop_first();
        assert forall|i: int| 0 <= i < t.len() implies {
            &&& #[trigger] t[i].0 < NLA_F_NESTED
            &&& value_fits(t[i].1)
            &&& parse_value(value_bytes(t[i].1), t[i].0, lookup(sch, t[i].0), is_nested(t[i].1)) == Ok::<AttrValue, crate::error::DecodeError>(t[i].1)
        } by {
            assert(t[i] == es[i + 1]);
        }
        lemma_list_round_trip(t, sch);
        let ty = es[0].0;
        let v = es[0].1;
        assert(es[0].0 < NLA_F_NESTED);
        let vs = value_size(v);
        let vb = value_bytes(v);
        lemma_value_bytes_len(v);
        lemma_padded_len(vb);
        lemma_align4(vs);
        lemma_align4(vs + 4);
        lemma_tree_bytes_len(t);
        let len = (NLATTR_SIZE + vs) as u16;
        assert(len as nat == 4 + vs);
        let s = tree_bytes(es);
        let rest = tree_bytes(t);
        assert(s == le16(len) + le16(wire_type(ty, v)) + padded(vb) + rest);
        assert(s.subrange(0, 2) =~= le16(len));
        lemma_le16_read(s, 0, len);
        assert(s.subrange(2, 4) =~= le16(wire_type(ty, v)));
        lemma_le16_read(s, 2, wire_type(ty, v));
        lemma_type_bits(ty);
        assert(s.subrange(4, (4 + vs) as int) =~= vb);
        assert(align4(4 + vs) == 4 + align4(vs));
        assert(s.subrange((4 + align4(vs)) as int, s.len() as int) =~= rest);
        let raw = wire_type(ty, v);
        assert(get_le16(s, 2) == raw);
        assert(raw & 0x7fff == ty);
        assert((raw & NLA_F_NESTED != 0) == is_nested(v));
        assert(s.len() == 4 + align4(vs) + rest.len());
        assert(parse_value(s.subrange(4, (4 + vs) as int), ty, lookup(sch, ty), is_nested(v))
            == Ok::<AttrValue, crate::error::DecodeError>(v));
        assert(attr_step((4 + vs) as nat, s.len()) == 4 + align4(vs));
        assert(seq![(ty, v)] + t =~= es);
    } else {
        assert(es =~= Seq::<(u16, AttrValue)>::empty());
    }
}

/// Decoding the wire form of a well-formed tree that fits, with the schema
/// that describes it, gives the tree back.
pub proof fn lemma_round_trip(es: Seq<(u16, AttrValue)>)
    requires
        tree_wf(es),
        tree_fits(es),
    ensures
        parse_tree(tree_bytes(es), schema_of(es)) == Ok::<Seq<(u16, AttrValue)>, crate::error::DecodeError>(es),
    decreases es,
{
    lemma_wf_index(es);
    lemma_fits_index(es);
    lemma_schema_of(es);
    let sch = schema_of(es);
    assert forall|i: int|
        0 <= i < es.len() implies {
            &&& #[trigger] es[i].0 < NLA_F_NESTED
            &&& value_fits(es[i].1)
            &&& parse_value(value_bytes(es[i].1), es[i].0, lookup(sch, es[i].0), is_nested(es[i].1)) == Ok::<AttrValue, crate::error::DecodeError>(es[i].1)
        } by {
        assert forall|j: int| 0 <= j < i implies #[trigger] sch[j].0 != es[i].0 by {
            assert(sch[j] == (es[j].0, kind_of(es[j].1)));
        }
        assert(sch[i] == (es[i].0, kind_of(es[i].1)));
        lemma_lookup(sch, i, es[i].0);
        lemma_value_round_trip(es[i].1, es[i].0, is_nested(es[i].1));
    }
    lemma_list_round_trip(es, sch);
    lemma_normalize_sorted(es);
}

} // verus!

verus! {

pub proof fn lemma_entries_view(s: Seq<(u16, AttributeType)>)
    ensures
        entries_view(s).len() == s.len(),
        forall|i: int|
            0 <= i < s.len() ==> #[trigger] entries_view(s)[i] == (s[i].0, value_view(s[i].1)),
    decreases s,
{
    if s.len() > 0 {
        let t = s.drop_first();
        lemma_entries_view(t);
        assert forall|i: int| 0 <= i < s.len() implies #[trigger] entries_view(s)[i] == (
            s[i].0,
            value_view(s[i].1),
        ) by {
            if i > 0 {
                assert(s[i] == t[i - 1]);
                assert(entries_view(s)[i] == entries_view(t)[i - 1]);
            }
        }
    }
}

pub proof fn lemma_kinds_view(s: Seq<(u16, AttrKind)>)
    ensures
        kinds_view(s).len() == s.len(),
        forall|i: int| 0 <= i < s.len() ==> #[trigger] kinds_view(s)[i] == (s[i].0, kind_view(s[i].1)),
    decreases s,
{
    if s.len() > 0 {
        let t = s.drop_first();
        lemma_kinds_view(t);
        assert forall|i: int| 0 <= i < s.len() implies #[trigger] kinds_view(s)[i] == (
            s[i].0,
            kind_view(s[i].1),
        ) by {
            if i > 0 {
                assert(s[i] == t[i - 1]);
                assert(kinds_view(s)[i] == kinds_view(t)[i - 1]);
            }
        }
    }
}

/// A sorted sequence of well-formed values under codes below the nested flag
/// is a well-formed tree.
pub proof fn lemma_wf_from_index(es: Seq<(u16, AttrValue)>)
    requires
        sorted_keys(es),
        forall|i: int| 0 <= i < es.len() ==> #[trigger] es[i].0 < NLA_F_NESTED && value_wf(es[i].1),
    ensures
        tree_wf(es),
    decreases es,
{
    if es.len() > 0 {
        let t = es.drop_first();
        assert forall|i: int| 0 <= i < t.len() implies #[trigger] t[i].0 < NLA_F_NESTED && value_wf(
            t[i].1,
        ) by {
            assert(t[i] == es[i + 1]);
        }
        assert forall|i: int, j: int| 0 <= i < j < t.len() implies t[i].0 < t[j].0 by {
            assert(t[i] == es[i + 1]);
            assert(t[j] == es[j + 1]);
        }
        assert(es[0].0 < NLA_F_NESTED && value_wf(es[0].1));
        lemma_wf_from_index(t);
    }
}

/// Where `tree_set` stores: at the first position whose code is not below
/// `ty`, replacing an equal code.
pub proof fn lemma_set_at(es: Seq<(u16, AttrValue)>, i: int, ty: u16, v: AttrValue)
    requires
        0 <= i <= es.len(),
        forall|j: int| 0 <= j < i ==> #[trigger] es[j].0 < ty,
        i < es.len() ==> es[i].0 >= ty,
    ensures
        tree_set(es, ty, v) == if i < es.len() && es[i].0 == ty {
            es.update(i, (ty, v))
        } else {
            es.insert(i, (ty, v))
        },
    decreases i,
{
    if i == 0 {
        if es.len() == 0 {
            assert(es.insert(0, (ty, v)) =~= seq![(ty, v)]);
        } else if es[0].0 == ty {
            assert(es.update(0, (ty, v)) =~= seq![(ty, v)] + es.drop_first());
        } else {
            assert(es.insert(0, (ty, v)) =~= seq![(ty, v)] + es);
        }
    } else {
        let t = es.drop_first();
        assert(es[0].0 < ty);
        assert forall|j: int| 0 <= j < i - 1 implies #[trigger] t[j].0 < ty by {
            assert(t[j] == es[j + 1]);
        }
        lemma_set_at(t, i - 1, ty, v);
        if i < es.len() && es[i].0 == ty {
            assert(seq![es[0]] + t.update(i - 1, (ty, v)) =~= es.update(i, (ty, v)));
        } else {
            assert(seq![es[0]] + t.insert(i - 1, (ty, v)) =~= es.insert(i, (ty, v)));
        }
    }
}

/// Storing a well-formed value keeps a tree well-formed.
pub proof fn lemma_set_wf(es: Seq<(u16, AttrValue)>, i: int, ty: u16, v: AttrValue)
    requires
        tree_wf(es),
        ty < NLA_F_NESTED,
        value_wf(v),
        0 <= i <= es.len(),
        forall|j: int| 0 <= j < i ==> #[trigger] es[j].0 < ty,
        i < es.len() ==> es[i].0 >= ty,
    ensures
        tree_wf(tree_set(es, ty, v)),
{
    lemma_wf_index(es);
    lemma_set_at(es, i, ty, v);
    let r = tree_set(es, ty, v);
    if i < es.len() && es[i].0 == ty {
        assert forall|a: int, b: int| 0 <= a < b < r.len() implies r[a].0 < r[b].0 by {
            assert(r[a].0 == es[a].0);
            assert(r[b].0 == es[b].0);
        }
    } else {
        assert forall|a: int, b: int| 0 <= a < b < r.len() implies r[a].0 < r[b].0 by {
            if b < i {
            } else if b == i {
                assert(r[a] == es[a]);
            } else if a < i {
                assert(r[b] == es[b - 1]);
            } else if a == i {
                assert(r[b] == es[b - 1]);
            } else {
                assert(r[a] == es[a - 1]);
                assert(r[b] == es[b - 1]);
            }
        }
    }
    assert forall|a: int| 0 <= a < r.len() implies #[trigger] r[a].0 < NLA_F_NESTED && value_wf(
        r[a].1,
    ) by {
        if a == i {
        } else if a < i {
        } else if i < es.len() && es[i].0 == ty {
        } else {
            assert(r[a] == es[a - 1]);
        }
    }
    lemma_wf_from_index(r);
}

pub proof fn lemma_get_at(es: Seq<(u16, AttrValue)>, i: int, ty: u16)
    requires
        0 <= i <= es.len(),
        forall|j: int| 0 <= j < i ==> #[trigger] es[j].0 != ty,
        i < es.len() ==> es[i].0 == ty,
    ensures
        tree_get(es, ty) == if i < es.len() {
            Some(es[i].1)
        } else {
            None
        },
    decreases i,
{
    if i > 0 {
        let t = es.drop_first();
        assert(es[0].0 != ty);
        assert forall|j: int| 0 <= j < i - 1 implies #[trigger] t[j].0 != ty by {
            assert(t[j] == es[j + 1]);
        }
        lemma_get_at(t, i - 1, ty);
    }
}

/// A tree that fits is at most 65536 bytes per attribute.
pub proof fn lemma_size_bound(es: Seq<(u16, AttrValue)>)
    requires
        forall|i: int| 0 <= i < es.len() ==> #[trigger] value_fits(es[i].1),
    ensures
        tree_size(es) <= 65536 * es.len(),
    decreases es,
{
    if es.len() > 0 {
        let t = es.drop_first();
        assert forall|i: int| 0 <= i < t.len() implies #[trigger] value_fits(t[i].1) by {
            assert(t[i] == es[i + 1]);
        }
        lemma_size_bound(t);
        assert(value_fits(es[0].1));
        lemma_align4(value_size(es[0].1));
    }
}

/// A well-formed tree has at most one attribute per code below the nested
/// flag.
pub proof fn lemma_count_bound(es: Seq<(u16, AttrValue)>)
    requires
        tree_wf(es),
    ensures
        es.len() <= NLA_F_NESTED,
{
    lemma_wf_index(es);
    if es.len() > 0 {
        assert forall|i: int| 0 <= i < es.len() implies #[trigger] es[i].0 >= i by {
            lemma_key_at_least(es, i);
        }
        assert(es[es.len() - 1].0 >= es.len() - 1);
    }
}

proof fn lemma_key_at_least(es: Seq<(u16, AttrValue)>, i: int)
    requires
        sorted_keys(es),
        0 <= i < es.len(),
    ensures
        es[i].0 >= i,
    decreases i,
{
    if i > 0 {
        lemma_key_at_least(es, i - 1);
    }
}

/// Encoding a concatenation concatenates the encodings.
pub proof fn lemma_tree_bytes_concat(a: Seq<(u16, AttrValue)>, b: Seq<(u16, AttrValue)>)
    ensures
        tree_bytes(a + b) == tree_bytes(a) + tree_bytes(b),
    decreases a.len(),
{
    if a.len() == 0 {
        assert(a + b =~= b);
        assert(tree_bytes(a) + tree_bytes(b) =~= tree_bytes(b));
    } else {
        lemma_tree_bytes_concat(a.drop_first(), b);
        assert((a + b).drop_first() =~= a.drop_first() + b);
        assert((a + b)[0] == a[0]);
        let e = a[0];
        let h = le16((NLATTR_SIZE + value_size(e.1)) as u16) + le16(wire_type(e.0, e.1)) + padded(
            value_bytes(e.1),
        );
        assert(tree_bytes(a + b) == h + tree_bytes(a.drop_first() + b));
        assert(h + (tree_bytes(a.drop_first()) + tree_bytes(b)) =~= (h + tree_bytes(a.drop_first()))
            + tree_bytes(b));
    }
}

} // verus!

verus! {

pub proof fn lemma_lookup_at(sch: Seq<(u16, KindView)>, i: int, ty: u16)
    requires
        0 <= i <= sch.len(),
        forall|j: int| 0 <= j < i ==> #[trigger] sch[j].0 != ty,
        i < sch.len() ==> sch[i].0 == ty,
    ensures
        lookup(sch, ty) == if i < sch.len() {
            Some(sch[i].1)
        } else {
            None
        },
    decreases i,
{
    if i > 0 {
        let t = sch.drop_first();
        assert(sch[0].0 != ty);
        assert forall|j: int| 0 <= j < i - 1 implies #[trigger] t[j].0 != ty by {
            assert(t[j] == sch[j + 1]);
        }
        lemma_lookup_at(t, i - 1, ty);
    }
}

} // verus!

verus! {

pub proof fn lemma_fits_from_index(es: Seq<(u16, AttrValue)>)
    requires
        forall|i: int| 0 <= i < es.len() ==> #[trigger] value_fits(es[i].1),
    ensures
        tree_fits(es),
    decreases es,
{
    if es.len() > 0 {
        let t = es.drop_first();
        assert forall|i: int| 0 <= i < t.len() implies #[trigger] value_fits(t[i].1) by {
            assert(t[i] == es[i + 1]);
        }
        assert(value_fits(es[0].1));
        lemma_fits_from_index(t);
    }
}

} // verus!
