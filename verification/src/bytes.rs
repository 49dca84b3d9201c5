//! Fixed-width integers as byte sequences, in the two byte orders that the
//! formats use: big-endian in PNG chunks and in the zlib trailer,
//! little-endian in DEFLATE block headers.

use vstd::prelude::*;

verus! {

/// The four bytes of `x`, most significant first.
pub open spec fn be32(x: u32) -> Seq<u8> {
    seq![
        (x / 0x100_0000) as u8,
        (x / 0x1_0000 % 0x100) as u8,
        (x / 0x100 % 0x100) as u8,
        (x % 0x100) as u8,
    ]
}

/// The number that four bytes spell, most significant first.
pub open spec fn from_be32(bytes: Seq<u8>) -> u32
    recommends
        bytes.len() == 4,
{
    (bytes[0] * 0x100_0000 + bytes[1] * 0x1_0000 + bytes[2] * 0x100 + bytes[3]) as u32
}

/// The two bytes of `x`, least significant first.
pub open spec fn le16(x: u16) -> Seq<u8> {
    seq![(x % 0x100) as u8, (x / 0x100) as u8]
}

/// The number that two bytes spell, least significant first.
pub open spec fn from_le16(bytes: Seq<u8>) -> u16
    recommends
        bytes.len() == 2,
{
    (bytes[0] + bytes[1] * 0x100) as u16
}

/// The bytes of `chunks`, one chunk after the other.
pub open spec fn concat(chunks: Seq<Seq<u8>>) -> Seq<u8>
    decreases chunks.len(),
{
    if chunks.len() == 0 {
        Seq::empty()
    } else {
        concat(chunks.drop_last()) + chunks.last()
    }
}

/// Reading back the big-endian bytes of a number gives the number.
pub proof fn lemma_be32_round_trip(x: u32)
    ensures
        be32(x).len() == 4,
        from_be32(be32(x)) == x,
{
}

/// Reading back the little-endian bytes of a number gives the number.
pub proof fn lemma_le16_round_trip(x: u16)
    ensures
        le16(x).len() == 2,
        from_le16(le16(x)) == x,
{
}

/// The big-endian bytes of `x`.
pub fn u32_to_be_bytes(x: u32) -> (bytes: [u8; 4])
    ensures
        bytes@ == be32(x),
{
    let bytes: [u8; 4] = [
        (x / 0x100_0000) as u8,
        (x / 0x1_0000 % 0x100) as u8,
        (x / 0x100 % 0x100) as u8,
        (x % 0x100) as u8,
    ];
    bytes
}

/// The little-endian bytes of `x`.
pub fn u16_to_le_bytes(x: u16) -> (bytes: [u8; 2])
    ensures
        bytes@ == le16(x),
{
    let bytes: [u8; 2] = [(x % 0x100) as u8, (x / 0x100) as u8];
    bytes
}

/// Appends the big-endian bytes of `x` to `out`.
pub fn write_u32_be(out: &mut Vec<u8>, x: u32)
    ensures
        final(out)@ == old(out)@ + be32(x),
{
    let bytes = u32_to_be_bytes(x);
    out.extend_from_slice(bytes.as_slice());
}

/// Hands out what `writer` holds and leaves it empty.
pub(crate) fn take_sink(writer: &mut Vec<u8>) -> (sink: Vec<u8>)
    ensures
        sink@ == old(writer)@,
        final(writer)@ == Seq::<u8>::empty(),
{
    let mut sink = Vec::new();
    core::mem::swap(writer, &mut sink);
    sink
}

} // verus!
