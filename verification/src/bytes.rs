//! Big-endian encoding of fixed-width integers.

use vstd::prelude::*;

verus! {

/// The two big-endian bytes of a `u16`.
pub open spec fn be_u16(x: u16) -> Seq<u8> {
    seq![(x >> 8u16) as u8, (x & 0xffu16) as u8]
}

/// The four big-endian bytes of a `u32`.
pub open spec fn be_u32(x: u32) -> Seq<u8> {
    seq![
        (x >> 24u32) as u8,
        ((x >> 16u32) & 0xffu32) as u8,
        ((x >> 8u32) & 0xffu32) as u8,
        (x & 0xffu32) as u8,
    ]
}

/// The eight big-endian bytes of a `u64`.
pub open spec fn be_u64(x: u64) -> Seq<u8> {
    seq![
        (x >> 56u64) as u8,
        ((x >> 48u64) & 0xffu64) as u8,
        ((x >> 40u64) & 0xffu64) as u8,
        ((x >> 32u64) & 0xffu64) as u8,
        ((x >> 24u64) & 0xffu64) as u8,
        ((x >> 16u64) & 0xffu64) as u8,
        ((x >> 8u64) & 0xffu64) as u8,
        (x & 0xffu64) as u8,
    ]
}

/// The `u16` whose big-endian bytes are `b0, b1`.
pub open spec fn u16_from_be(b0: u8, b1: u8) -> u16 {
    ((b0 as u16) << 8u16) | (b1 as u16)
}

/// The `u32` whose big-endian bytes are `b0..b3`.
pub open spec fn u32_from_be(b0: u8, b1: u8, b2: u8, b3: u8) -> u32 {
    ((b0 as u32) << 24u32) | ((b1 as u32) << 16u32) | ((b2 as u32) << 8u32) | (b3 as u32)
}

/// The `u64` whose big-endian bytes are `b0..b7`.
pub open spec fn u64_from_be(b0: u8, b1: u8, b2: u8, b3: u8, b4: u8, b5: u8, b6: u8, b7: u8) -> u64 {
    ((b0 as u64) << 56u64) | ((b1 as u64) << 48u64) | ((b2 as u64) << 40u64) | ((b3 as u64)
        << 32u64) | ((b4 as u64) << 24u64) | ((b5 as u64) << 16u64) | ((b6 as u64) << 8u64) | (
    b7 as u64)
}

/// The `u16` stored big-endian at position `i` of `s`.
pub open spec fn read_u16_be(s: Seq<u8>, i: int) -> u16 {
    u16_from_be(s[i], s[i + 1])
}

/// The `u32` stored big-endian at position `i` of `s`.
pub open spec fn read_u32_be(s: Seq<u8>, i: int) -> u32 {
    u32_from_be(s[i], s[i + 1], s[i + 2], s[i + 3])
}

/// The `u64` stored big-endian at position `i` of `s`.
pub open spec fn read_u64_be(s: Seq<u8>, i: int) -> u64 {
    u64_from_be(s[i], s[i + 1], s[i + 2], s[i + 3], s[i + 4], s[i + 5], s[i + 6], s[i + 7])
}

/// Reading back the bytes of a `u16` gives the value.
pub proof fn lemma_u16_roundtrip(x: u16)
    ensures
        u16_from_be((x >> 8u16) as u8, (x & 0xffu16) as u8) == x,
{
    assert(((((x >> 8u16) as u8) as u16) << 8u16) | (((x & 0xffu16) as u8) as u16) == x)
        by (bit_vector);
}

/// Reading back the bytes of a `u32` gives the value.
pub proof fn lemma_u32_roundtrip(x: u32)
    ensures
        read_u32_be(be_u32(x), 0) == x,
{
    let b = be_u32(x);
    assert(b[0] == (x >> 24u32) as u8);
    assert(((((x >> 24u32) as u8) as u32) << 24u32) | (((((x >> 16u32) & 0xffu32) as u8) as u32)
        << 16u32) | (((((x >> 8u32) & 0xffu32) as u8) as u32) << 8u32) | (((x & 0xffu32) as u8) as u32)
        == x) by (bit_vector);
}

/// Reading back the bytes of a `u64` gives the value.
pub proof fn lemma_u64_roundtrip(x: u64)
    ensures
        read_u64_be(be_u64(x), 0) == x,
{
    let b = be_u64(x);
    assert(b[0] == (x >> 56u64) as u8);
    assert(((((x >> 56u64) as u8) as u64) << 56u64) | (((((x >> 48u64) & 0xffu64) as u8) as u64)
        << 48u64) | (((((x >> 40u64) & 0xffu64) as u8) as u64) << 40u64) | (((((x >> 32u64)
        & 0xffu64) as u8) as u64) << 32u64) | (((((x >> 24u64) & 0xffu64) as u8) as u64) << 24u64)
        | (((((x >> 16u64) & 0xffu64) as u8) as u64) << 16u64) | (((((x >> 8u64) & 0xffu64) as u8)
        as u64) << 8u64) | (((x & 0xffu64) as u8) as u64) == x) by (bit_vector);
}

/// Writing a `u16` read from two bytes gives back those bytes.
pub proof fn lemma_u16_bytes(b0: u8, b1: u8)
    ensures
        be_u16(u16_from_be(b0, b1)) == seq![b0, b1],
{
    let x = u16_from_be(b0, b1);
    assert((x >> 8u16) as u8 == b0 && (x & 0xffu16) as u8 == b1) by (bit_vector)
        requires
            x == ((b0 as u16) << 8u16) | (b1 as u16),
    ;
    assert(be_u16(x) =~= seq![b0, b1]);
}

/// Writing a `u32` read from four bytes gives back those bytes.
pub proof fn lemma_u32_bytes(b0: u8, b1: u8, b2: u8, b3: u8)
    ensures
        be_u32(u32_from_be(b0, b1, b2, b3)) == seq![b0, b1, b2, b3],
{
    let x = u32_from_be(b0, b1, b2, b3);
    assert((x >> 24u32) as u8 == b0 && ((x >> 16u32) & 0xffu32) as u8 == b1 && ((x >> 8u32)
        & 0xffu32) as u8 == b2 && (x & 0xffu32) as u8 == b3) by (bit_vector)
        requires
            x == ((b0 as u32) << 24u32) | ((b1 as u32) << 16u32) | ((b2 as u32) << 8u32) | (
            b3 as u32),
    ;
    assert(be_u32(x) =~= seq![b0, b1, b2, b3]);
}

/// Writing a `u64` read from eight bytes gives back those bytes.
pub proof fn lemma_u64_bytes(b0: u8, b1: u8, b2: u8, b3: u8, b4: u8, b5: u8, b6: u8, b7: u8)
    ensures
        be_u64(u64_from_be(b0, b1, b2, b3, b4, b5, b6, b7)) == seq![b0, b1, b2, b3, b4, b5, b6, b7],
{
    let x = u64_from_be(b0, b1, b2, b3, b4, b5, b6, b7);
    assert((x >> 56u64) as u8 == b0 && ((x >> 48u64) & 0xffu64) as u8 == b1 && ((x >> 40u64)
        & 0xffu64) as u8 == b2 && ((x >> 32u64) & 0xffu64) as u8 == b3 && ((x >> 24u64)
        & 0xffu64) as u8 == b4 && ((x >> 16u64) & 0xffu64) as u8 == b5 && ((x >> 8u64)
        & 0xffu64) as u8 == b6 && (x & 0xffu64) as u8 == b7) by (bit_vector)
        requires
            x == ((b0 as u64) << 56u64) | ((b1 as u64) << 48u64) | ((b2 as u64) << 40u64) | ((
            b3 as u64) << 32u64) | ((b4 as u64) << 24u64) | ((b5 as u64) << 16u64) | ((b6 as u64)
                << 8u64) | (b7 as u64),
    ;
    assert(be_u64(x) =~= seq![b0, b1, b2, b3, b4, b5, b6, b7]);
}

/// Appends the big-endian bytes of `x`.
pub fn push_u16_be(out: &mut Vec<u8>, x: u16)
    ensures
        final(out)@ == old(out)@ + be_u16(x),
{
    out.push((x >> 8u16) as u8);
    out.push((x & 0xffu16) as u8);
    assert(final(out)@ =~= old(out)@ + be_u16(x));
}

/// Appends the big-endian bytes of `x`.
pub fn push_u32_be(out: &mut Vec<u8>, x: u32)
    ensures
        final(out)@ == old(out)@ + be_u32(x),
{
    out.push((x >> 24u32) as u8);
    out.push(((x >> 16u32) & 0xffu32) as u8);
    out.push(((x >> 8u32) & 0xffu32) as u8);
    out.push((x & 0xffu32) as u8);
    assert(final(out)@ =~= old(out)@ + be_u32(x));
}

/// Appends the big-endian bytes of `x`.
pub fn push_u64_be(out: &mut Vec<u8>, x: u64)
    ensures
        final(out)@ == old(out)@ + be_u64(x),
{
    out.push((x >> 56u64) as u8);
    out.push(((x >> 48u64) & 0xffu64) as u8);
    out.push(((x >> 40u64) & 0xffu64) as u8);
    out.push(((x >> 32u64) & 0xffu64) as u8);
    out.push(((x >> 24u64) & 0xffu64) as u8);
    out.push(((x >> 16u64) & 0xffu64) as u8);
    out.push(((x >> 8u64) & 0xffu64) as u8);
    out.push((x & 0xffu64) as u8);
    assert(final(out)@ =~= old(out)@ + be_u64(x));
}

/// Reads the big-endian `u16` at position `i`.
pub fn get_u16_be(p: &[u8], i: usize) -> (x: u16)
    requires
        i + 2 <= p@.len(),
    ensures
        x == read_u16_be(p@, i as int),
{
    ((p[i] as u16) << 8u16) | (p[i + 1] as u16)
}

/// Reads the big-endian `u32` at position `i`.
pub fn get_u32_be(p: &[u8], i: usize) -> (x: u32)
    requires
        i + 4 <= p@.len(),
    ensures
        x == read_u32_be(p@, i as int),
{
    ((p[i] as u32) << 24u32) | ((p[i + 1] as u32) << 16u32) | ((p[i + 2] as u32) << 8u32) | (p[i
        + 3] as u32)
}

/// Reads the big-endian `u64` at position `i`.
pub fn get_u64_be(p: &[u8], i: usize) -> (x: u64)
    requires
        i + 8 <= p@.len(),
    ensures
        x == read_u64_be(p@, i as int),
{
    ((p[i] as u64) << 56u64) | ((p[i + 1] as u64) << 48u64) | ((p[i + 2] as u64) << 40u64) | ((p[i
        + 3] as u64) << 32u64) | ((p[i + 4] as u64) << 24u64) | ((p[i + 5] as u64) << 16u64) | ((p[i
        + 6] as u64) << 8u64) | (p[i + 7] as u64)
}

} // verus!

verus! {

/// A `u16` read inside a sequence only depends on the two bytes read.
pub proof fn lemma_read_u16_window(s: Seq<u8>, i: int, t: Seq<u8>)
    requires
        0 <= i,
        i + 2 <= s.len(),
        s.subrange(i, i + 2) == t,
    ensures
        read_u16_be(s, i) == read_u16_be(t, 0),
{
    assert(s[i] == t[0] && s[i + 1] == t[1]);
}

/// A `u32` read inside a sequence only depends on the four bytes read.
pub proof fn lemma_read_u32_window(s: Seq<u8>, i: int, t: Seq<u8>)
    requires
        0 <= i,
        i + 4 <= s.len(),
        s.subrange(i, i + 4) == t,
    ensures
        read_u32_be(s, i) == read_u32_be(t, 0),
{
    assert(s[i] == t[0] && s[i + 1] == t[1] && s[i + 2] == t[2] && s[i + 3] == t[3]);
}

/// A `u64` read inside a sequence only depends on the eight bytes read.
pub proof fn lemma_read_u64_window(s: Seq<u8>, i: int, t: Seq<u8>)
    requires
        0 <= i,
        i + 8 <= s.len(),
        s.subrange(i, i + 8) == t,
    ensures
        read_u64_be(s, i) == read_u64_be(t, 0),
{
    assert(s[i] == t[0] && s[i + 1] == t[1] && s[i + 2] == t[2] && s[i + 3] == t[3]);
    assert(s[i + 4] == t[4] && s[i + 5] == t[5] && s[i + 6] == t[6] && s[i + 7] == t[7]);
}

} // verus!
