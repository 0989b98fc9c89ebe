//! Fixed-width integers as byte sequences.
//!
//! Netlink headers carry their fields in host order, which on the platforms
//! this library targets is little-endian; attribute payloads carry integers
//! in network order (big-endian).
use vstd::prelude::*;

verus! {

pub open spec fn le16(x: u16) -> Seq<u8> {
    seq![(x & 0xff) as u8, (x >> 8u16) as u8]
}

pub open spec fn le32(x: u32) -> Seq<u8> {
    seq![(x & 0xff) as u8, ((x >> 8u32) & 0xff) as u8, ((x >> 16u32) & 0xff) as u8, (x >> 24u32) as u8]
}

pub open spec fn be16(x: u16) -> Seq<u8> {
    seq![(x >> 8u16) as u8, (x & 0xff) as u8]
}

pub open spec fn be32(x: u32) -> Seq<u8> {
    seq![(x >> 24u32) as u8, ((x >> 16u32) & 0xff) as u8, ((x >> 8u32) & 0xff) as u8, (x & 0xff) as u8]
}

pub open spec fn be64(x: u64) -> Seq<u8> {
    be32((x >> 32u64) as u32) + be32((x & 0xffff_ffff) as u32)
}

/// The little-endian `u16` stored at `s[i..i + 2]`.
pub open spec fn get_le16(s: Seq<u8>, i: int) -> u16 {
    ((s[i] as u16) | ((s[i + 1] as u16) << 8u16)) as u16
}

/// The little-endian `u32` stored at `s[i..i + 4]`.
pub open spec fn get_le32(s: Seq<u8>, i: int) -> u32 {
    ((s[i] as u32) | ((s[i + 1] as u32) << 8u32) | ((s[i + 2] as u32) << 16u32) | ((s[i + 3] as u32)
        << 24u32)) as u32
}

/// The big-endian `u16` stored at `s[i..i + 2]`.
pub open spec fn get_be16(s: Seq<u8>, i: int) -> u16 {
    (((s[i] as u16) << 8u16) | (s[i + 1] as u16)) as u16
}

/// The big-endian `u32` stored at `s[i..i + 4]`.
pub open spec fn get_be32(s: Seq<u8>, i: int) -> u32 {
    (((s[i] as u32) << 24u32) | ((s[i + 1] as u32) << 16u32) | ((s[i + 2] as u32) << 8u32) | (s[i
        + 3] as u32)) as u32
}

/// The big-endian `u64` stored at `s[i..i + 8]`.
pub open spec fn get_be64(s: Seq<u8>, i: int) -> u64 {
    (((get_be32(s, i) as u64) << 32u64) | (get_be32(s, i + 4) as u64)) as u64
}

proof fn lemma_bits16(x: u16)
    ensures
        ((((x & 0xff) as u8) as u16) | ((((x >> 8u16) as u8) as u16) << 8u16)) == x,
        (((((x >> 8u16) as u8) as u16) << 8u16) | (((x & 0xff) as u8) as u16)) == x,
{
    assert(((((x & 0xff) as u8) as u16) | ((((x >> 8u16) as u8) as u16) << 8u16)) == x)
        by (bit_vector);
    assert((((((x >> 8u16) as u8) as u16) << 8u16) | (((x & 0xff) as u8) as u16)) == x)
        by (bit_vector);
}

proof fn lemma_bits32(x: u32)
    ensures
        ((((x & 0xff) as u8) as u32) | (((((x >> 8u32) & 0xff) as u8) as u32) << 8u32) | (((((x
            >> 16u32) & 0xff) as u8) as u32) << 16u32) | ((((x >> 24u32) as u8) as u32) << 24u32))
            == x,
        (((((x >> 24u32) as u8) as u32) << 24u32) | (((((x >> 16u32) & 0xff) as u8) as u32)
            << 16u32) | (((((x >> 8u32) & 0xff) as u8) as u32) << 8u32) | (((x & 0xff) as u8)
            as u32)) == x,
{
    assert(((((x & 0xff) as u8) as u32) | (((((x >> 8u32) & 0xff) as u8) as u32) << 8u32) | (((((x
        >> 16u32) & 0xff) as u8) as u32) << 16u32) | ((((x >> 24u32) as u8) as u32) << 24u32))
        == x) by (bit_vector);
    assert((((((x >> 24u32) as u8) as u32) << 24u32) | (((((x >> 16u32) & 0xff) as u8) as u32)
        << 16u32) | (((((x >> 8u32) & 0xff) as u8) as u32) << 8u32) | (((x & 0xff) as u8)
        as u32)) == x) by (bit_vector);
}

proof fn lemma_bits64(x: u64)
    ensures
        ((((x >> 32u64) as u32) as u64) << 32u64) | (((x & 0xffff_ffff) as u32) as u64) == x,
{
    assert(((((x >> 32u64) as u32) as u64) << 32u64) | (((x & 0xffff_ffff) as u32) as u64) == x)
        by (bit_vector);
}

/// Reading back what was written gives the value that was written.
pub proof fn lemma_le16_read(s: Seq<u8>, i: int, x: u16)
    requires
        0 <= i,
        i + 2 <= s.len(),
        s.subrange(i, i + 2) == le16(x),
    ensures
        get_le16(s, i) == x,
{
    assert(s[i] == s.subrange(i, i + 2)[0]);
    assert(s[i + 1] == s.subrange(i, i + 2)[1]);
    lemma_bits16(x);
}

pub proof fn lemma_le32_read(s: Seq<u8>, i: int, x: u32)
    requires
        0 <= i,
        i + 4 <= s.len(),
        s.subrange(i, i + 4) == le32(x),
    ensures
        get_le32(s, i) == x,
{
    assert(s[i] == s.subrange(i, i + 4)[0]);
    assert(s[i + 1] == s.subrange(i, i + 4)[1]);
    assert(s[i + 2] == s.subrange(i, i + 4)[2]);
    assert(s[i + 3] == s.subrange(i, i + 4)[3]);
    lemma_bits32(x);
}

pub proof fn lemma_be16_read(s: Seq<u8>, i: int, x: u16)
    requires
        0 <= i,
        i + 2 <= s.len(),
        s.subrange(i, i + 2) == be16(x),
    ensures
        get_be16(s, i) == x,
{
    assert(s[i] == s.subrange(i, i + 2)[0]);
    assert(s[i + 1] == s.subrange(i, i + 2)[1]);
    lemma_bits16(x);
}

pub proof fn lemma_be32_read(s: Seq<u8>, i: int, x: u32)
    requires
        0 <= i,
        i + 4 <= s.len(),
        s.subrange(i, i + 4) == be32(x),
    ensures
        get_be32(s, i) == x,
{
    assert(s[i] == s.subrange(i, i + 4)[0]);
    assert(s[i + 1] == s.subrange(i, i + 4)[1]);
    assert(s[i + 2] == s.subrange(i, i + 4)[2]);
    assert(s[i + 3] == s.subrange(i, i + 4)[3]);
    lemma_bits32(x);
}

pub proof fn lemma_be64_read(s: Seq<u8>, i: int, x: u64)
    requires
        0 <= i,
        i + 8 <= s.len(),
        s.subrange(i, i + 8) == be64(x),
    ensures
        get_be64(s, i) == x,
{
    let hi = (x >> 32u64) as u32;
    let lo = (x & 0xffff_ffff) as u32;
    assert(s.subrange(i, i + 4) =~= s.subrange(i, i + 8).subrange(0, 4));
    assert(s.subrange(i + 4, i + 8) =~= s.subrange(i, i + 8).subrange(4, 8));
    assert(be64(x).subrange(0, 4) =~= be32(hi));
    assert(be64(x).subrange(4, 8) =~= be32(lo));
    lemma_be32_read(s, i, hi);
    lemma_be32_read(s, i + 4, lo);
    lemma_bits64(x);
}

/// Appends `x` in little-endian order.
pub fn push_le16(v: &mut Vec<u8>, x: u16)
    ensures
        final(v)@ == old(v)@ + le16(x),
{
    v.push((x & 0xff) as u8);
    v.push((x >> 8u16) as u8);
    assert(final(v)@ =~= old(v)@ + le16(x));
}

pub fn push_le32(v: &mut Vec<u8>, x: u32)
    ensures
        final(v)@ == old(v)@ + le32(x),
{
    v.push((x & 0xff) as u8);
    v.push(((x >> 8u32) & 0xff) as u8);
    v.push(((x >> 16u32) & 0xff) as u8);
    v.push((x >> 24u32) as u8);
    assert(final(v)@ =~= old(v)@ + le32(x));
}

pub fn push_be16(v: &mut Vec<u8>, x: u16)
    ensures
        final(v)@ == old(v)@ + be16(x),
{
    v.push((x >> 8u16) as u8);
    v.push((x & 0xff) as u8);
    assert(final(v)@ =~= old(v)@ + be16(x));
}

pub fn push_be32(v: &mut Vec<u8>, x: u32)
    ensures
        final(v)@ == old(v)@ + be32(x),
{
    v.push((x >> 24u32) as u8);
    v.push(((x >> 16u32) & 0xff) as u8);
    v.push(((x >> 8u32) & 0xff) as u8);
    v.push((x & 0xff) as u8);
    assert(final(v)@ =~= old(v)@ + be32(x));
}

pub fn push_be64(v: &mut Vec<u8>, x: u64)
    ensures
        final(v)@ == old(v)@ + be64(x),
{
    push_be32(v, (x >> 32u64) as u32);
    push_be32(v, (x & 0xffff_ffff) as u32);
    assert(final(v)@ =~= old(v)@ + be64(x));
}

pub fn read_le16(s: &[u8], i: usize) -> (r: u16)
    requires
        i + 2 <= s@.len(),
    ensures
        r == get_le16(s@, i as int),
{
    ((s[i] as u16) | ((s[i + 1] as u16) << 8u16)) as u16
}

pub fn read_le32(s: &[u8], i: usize) -> (r: u32)
    requires
        i + 4 <= s@.len(),
    ensures
        r == get_le32(s@, i as int),
{
    ((s[i] as u32) | ((s[i + 1] as u32) << 8u32) | ((s[i + 2] as u32) << 16u32) | ((s[i + 3] as u32)
        << 24u32)) as u32
}

pub fn read_be16(s: &[u8], i: usize) -> (r: u16)
    requires
        i + 2 <= s@.len(),
    ensures
        r == get_be16(s@, i as int),
{
    (((s[i] as u16) << 8u16) | (s[i + 1] as u16)) as u16
}

pub fn read_be32(s: &[u8], i: usize) -> (r: u32)
    requires
        i + 4 <= s@.len(),
    ensures
        r == get_be32(s@, i as int),
{
    (((s[i] as u32) << 24u32) | ((s[i + 1] as u32) << 16u32) | ((s[i + 2] as u32) << 8u32) | (s[i
        + 3] as u32)) as u32
}

pub fn read_be64(s: &[u8], i: usize) -> (r: u64)
    requires
        i + 8 <= s@.len(),
    ensures
        r == get_be64(s@, i as int),
{
    let n = s.len();
    assert(i + 8 <= n);
    let hi = read_be32(s, i);
    let lo = read_be32(s, i + 4);
    (((hi as u64) << 32u64) | (lo as u64)) as u64
}

} // verus!
