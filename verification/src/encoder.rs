//! A chunk as a record of its four fields, for writing a chunk that is
//! already at hand and for checking its checksum.

use crate::bytes::{be32, from_be32, lemma_be32_round_trip, write_u32_be};
use crate::chunk::chunk_bytes;
use crate::crc::{crc32_checksum, crc_fold, lemma_crc_fold_concat, update_crc, CRC_INITIAL};
use vstd::prelude::*;

verus! {

/// The eight bytes that every PNG file begins with.
pub const PNG_SIGNATURE: [u8; 8] = [0x89, 0x50, 0x4E, 0x47, 0x0D, 0x0A, 0x1A, 0x0A];

/// A PNG file.
#[derive(Debug, Clone)]
pub struct PngFile {}

/// One chunk of a PNG file.
#[derive(Debug, Clone)]
pub struct PngChunk {
    /// The number of bytes of data.
    pub size: u32,
    /// The four-letter type.
    pub ty: [u8; 4],
    /// The data.
    pub data: Vec<u8>,
    /// The CRC-32 of type and data, as stored with the chunk.
    pub crc: u32,
}

impl PngChunk {
    /// The stored length is the length of the data.
    pub open spec fn wf(&self) -> bool {
        self.size == self.data@.len()
    }

    /// The CRC-32 that type and data have.
    pub open spec fn expected_crc(&self) -> u32 {
        crc32_checksum(self.ty@ + self.data@)
    }

    /// The stored checksum is the one that type and data have. A chunk of
    /// which this does not hold is corrupt.
    pub open spec fn is_intact(&self) -> bool {
        self.crc == self.expected_crc()
    }

    /// The four fields as they stand in the file, the two numbers most
    /// significant byte first.
    pub open spec fn bytes(&self) -> Seq<u8> {
        be32(self.size) + self.ty@ + self.data@ + be32(self.crc)
    }

    /// Appends the four fields to `writer`, as they are.
    pub fn write_to(&self, writer: &mut Vec<u8>)
        ensures
            final(writer)@ == old(writer)@ + self.bytes(),
    {
        write_u32_be(writer, self.size);
        writer.extend_from_slice(self.ty.as_slice());
        writer.extend_from_slice(self.data.as_slice());
        write_u32_be(writer, self.crc);
    }

    /// Whether the stored checksum is the one that type and data have.
    pub fn check_crc(&self) -> (intact: bool)
        ensures
            intact == self.is_intact(),
    {
        let calculated_crc = self.calculate_crc();
        calculated_crc == self.crc
    }

    /// The CRC-32 of type and data, computed afresh.
    pub fn calculate_crc(&self) -> (crc: u32)
        ensures
            crc == self.expected_crc(),
    {
        let mut crc: u32 = 0xFFFF_FFFF;

        // The type comes first.
        let mut i: usize = 0;
        while i < 4
            invariant
                i <= 4,
                crc == crc_fold(CRC_INITIAL, self.ty@.take(i as int)),
            decreases 4 - i,
        {
            assert(self.ty@.take(i + 1).drop_last() =~= self.ty@.take(i as int));
            crc = update_crc(crc, self.ty[i]);
            i += 1;
        }
        assert(self.ty@.take(4) =~= self.ty@);

        // The data follows.
        let mut j: usize = 0;
        while j < self.data.len()
            invariant
                j <= self.data@.len(),
                crc == crc_fold(crc_fold(CRC_INITIAL, self.ty@), self.data@.take(j as int)),
            decreases self.data@.len() - j,
        {
            assert(self.data@.take(j + 1).drop_last() =~= self.data@.take(j as int));
            crc = update_crc(crc, self.data[j]);
            j += 1;
        }
        proof {
            assert(self.data@.take(j as int) =~= self.data@);
            lemma_crc_fold_concat(CRC_INITIAL, self.ty@, self.data@);
            assert(!crc == crc ^ 0xFFFF_FFFF) by (bit_vector);
        }

        // The final complement.
        !crc
    }
}

/// A chunk with the right length and the right checksum is written as the
/// chunk that frames its type and data.
pub proof fn lemma_intact_chunk_bytes(chunk: PngChunk)
    requires
        chunk.wf(),
        chunk.is_intact(),
    ensures
        chunk.bytes() == chunk_bytes(chunk.ty@, chunk.data@),
{
}

/// In every framed chunk, the four bytes at the end spell the CRC-32 of the
/// type and the data before them.
pub proof fn lemma_chunk_crc_matches(tag: Seq<u8>, data: Seq<u8>)
    requires
        tag.len() == 4,
        data.len() <= u32::MAX,
    ensures
        ({
            let chunk = chunk_bytes(tag, data);
            let end = chunk.len() as int;
            &&& end == 12 + data.len()
            &&& chunk.subrange(4, end - 4) == tag + data
            &&& from_be32(chunk.subrange(end - 4, end)) == crc32_checksum(
                chunk.subrange(4, end - 4),
            )
        }),
{
    let chunk = chunk_bytes(tag, data);
    let end = chunk.len() as int;
    let crc = crc32_checksum(tag + data);
    lemma_be32_round_trip(crc);
    assert(chunk.subrange(4, end - 4) =~= tag + data);
    assert(chunk.subrange(end - 4, end) =~= be32(crc));
}

/// A chunk put together from the bytes of a framed chunk, the length from
/// the number of bytes and the other fields from where they stand, is
/// intact, and it is written back as the bytes it was put together from.
pub proof fn lemma_rebuilt_chunk(tag: Seq<u8>, data: Seq<u8>, chunk: PngChunk)
    requires
        tag.len() == 4,
        data.len() <= u32::MAX,
        ({
            let framed = chunk_bytes(tag, data);
            let len = framed.len() - 12;
            &&& chunk.size == len
            &&& chunk.ty@ == framed.subrange(4, 8)
            &&& chunk.data@ == framed.subrange(8, 8 + len)
            &&& chunk.crc == from_be32(framed.subrange(8 + len, 12 + len))
        }),
    ensures
        chunk.wf(),
        chunk.ty@ == tag,
        chunk.data@ == data,
        chunk.is_intact(),
        chunk.bytes() == chunk_bytes(tag, data),
{
    let framed = chunk_bytes(tag, data);
    let len = data.len() as int;
    let crc = crc32_checksum(tag + data);
    lemma_be32_round_trip(crc);
    assert(framed.len() == 12 + len);
    assert(framed.subrange(4, 8) =~= tag);
    assert(framed.subrange(8, 8 + len) =~= data);
    assert(framed.subrange(8 + len, 12 + len) =~= be32(crc));
}

} // verus!
