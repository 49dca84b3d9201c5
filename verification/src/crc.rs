//! CRC-32 as PNG uses it: bit-reflected, polynomial `0xEDB88320`, the
//! register starting at all ones and complemented at the end.
//!
//! The checksum is defined bit by bit. The executable code goes a byte at a
//! time through a lookup table, and is proved to compute the same value.

use crate::bytes::{be32, concat, write_u32_be};
use crate::crc_table::{lemma_crc_table_entry, CRC_TABLE};
use vstd::prelude::*;

verus! {

/// The register before the first byte, and the mask of the final complement.
pub const CRC_INITIAL: u32 = 0xFFFF_FFFF;

/// The CRC-32 polynomial, bits reversed.
pub const CRC_POLYNOMIAL: u32 = 0xEDB8_8320;

/// One step of the division: the register moves one bit to the right, and
/// the polynomial is subtracted if a one fell out.
pub open spec fn crc_shift(c: u32) -> u32 {
    if c & 1 != 0 {
        CRC_POLYNOMIAL ^ (c >> 1)
    } else {
        c >> 1
    }
}

/// `k` steps of the division.
pub open spec fn crc_shifts(c: u32, k: nat) -> u32
    decreases k,
{
    if k == 0 {
        c
    } else {
        crc_shift(crc_shifts(c, (k - 1) as nat))
    }
}

/// Entry `n` of the lookup table: eight steps from `n`.
pub open spec fn crc_table_entry(n: u8) -> u32 {
    crc_shifts(n as u32, 8)
}

/// The register after one more byte: the byte is added into the low bits,
/// then eight steps follow.
pub open spec fn crc_update(crc: u32, byte: u8) -> u32 {
    crc_shifts(crc ^ (byte as u32), 8)
}

/// The register after `bytes`, starting from `crc`.
pub open spec fn crc_fold(crc: u32, bytes: Seq<u8>) -> u32
    decreases bytes.len(),
{
    if bytes.len() == 0 {
        crc
    } else {
        crc_update(crc_fold(crc, bytes.drop_last()), bytes.last())
    }
}

/// The CRC-32 of `bytes`.
pub open spec fn crc32_checksum(bytes: Seq<u8>) -> u32 {
    crc_fold(CRC_INITIAL, bytes) ^ CRC_INITIAL
}

/// The register after each of `chunks` in turn, starting from `crc`.
pub open spec fn crc_fold_chunks(crc: u32, chunks: Seq<Seq<u8>>) -> u32
    decreases chunks.len(),
{
    if chunks.len() == 0 {
        crc
    } else {
        crc_fold(crc_fold_chunks(crc, chunks.drop_last()), chunks.last())
    }
}

/// A table lookup does the work of eight steps: the high 24 bits of the
/// register only move, and what the low byte contributes is in the table.
pub proof fn lemma_crc_update_by_table(crc: u32, byte: u8)
    ensures
        (crc & 0xFF) ^ (byte as u32) < 256,
        crc_update(crc, byte) == (crc >> 8) ^ crc_table_entry(((crc & 0xFF) ^ (byte as u32)) as u8),
{
    assert((crc & 0xFF) ^ (byte as u32) < 256) by (bit_vector);
    assert(crc_shifts(crc ^ (byte as u32), 8) == (crc >> 8) ^ crc_shifts(
        (crc & 0xFF) ^ (byte as u32),
        8,
    )) by (bit_vector);
}

/// Feeding `a` and then `b` leaves the register that feeding `a + b` leaves.
pub proof fn lemma_crc_fold_concat(crc: u32, a: Seq<u8>, b: Seq<u8>)
    ensures
        crc_fold(crc, a + b) == crc_fold(crc_fold(crc, a), b),
    decreases b.len(),
{
    if b.len() > 0 {
        assert((a + b).drop_last() =~= a + b.drop_last());
        lemma_crc_fold_concat(crc, a, b.drop_last());
    }
}

/// However a byte sequence is cut into chunks, feeding the chunks one by one
/// leaves the register that feeding the whole leaves, and so gives the
/// CRC-32 of the whole.
pub proof fn lemma_crc_streaming(crc: u32, chunks: Seq<Seq<u8>>)
    ensures
        crc_fold_chunks(crc, chunks) == crc_fold(crc, concat(chunks)),
        crc_fold_chunks(CRC_INITIAL, chunks) ^ CRC_INITIAL == crc32_checksum(concat(chunks)),
    decreases chunks.len(),
{
    if chunks.len() > 0 {
        lemma_crc_streaming(crc, chunks.drop_last());
        lemma_crc_fold_concat(crc, concat(chunks.drop_last()), chunks.last());
        lemma_crc_streaming(CRC_INITIAL, chunks.drop_last());
        lemma_crc_fold_concat(CRC_INITIAL, concat(chunks.drop_last()), chunks.last());
    }
}

/// Computes the lookup table: for each index, eight division steps.
pub fn make_crc_table() -> (table: [u32; 256])
    ensures
        forall|n: u8| table[n as int] == crc_table_entry(n),
        table@ == CRC_TABLE@,
{
    let mut table = [0u32; 256];
    let mut n: usize = 0;
    while n < 256
        invariant
            n <= 256,
            forall|i: u8| (i as int) < n ==> table[i as int] == crc_table_entry(i),
        decreases 256 - n,
    {
        let mut c: u32 = n as u32;
        let mut k: usize = 0;
        while k < 8
            invariant
                k <= 8,
                n < 256,
                c == crc_shifts(n as u32, k as nat),
            decreases 8 - k,
        {
            if (c & 1) != 0 {
                c = CRC_POLYNOMIAL ^ (c >> 1);
            } else {
                c >>= 1;
            }
            k += 1;
        }
        table[n] = c;
        n += 1;
    }
    assert forall|i: int| 0 <= i < 256 implies table@[i] == CRC_TABLE@[i] by {
        lemma_crc_table_entry(i as u8);
        assert(table[(i as u8) as int] == crc_table_entry(i as u8));
    }
    table
}

/// The register after one more byte, by table lookup.
pub fn update_crc(crc: u32, byte: u8) -> (next: u32)
    ensures
        next == crc_update(crc, byte),
{
    proof {
        lemma_crc_update_by_table(crc, byte);
        lemma_crc_table_entry(((crc & 0xFF) ^ (byte as u32)) as u8);
    }
    (crc >> 8) ^ CRC_TABLE[((crc & 0xFF) ^ byte as u32) as usize]
}

/// A byte sink that keeps the CRC-32 of what passes through it.
///
/// Every write goes on to the wrapped sink unchanged and into the running
/// register. `finish` appends the checksum and hands the sink back.
#[derive(Debug)]
pub struct CrcWriter {
    inner: Vec<u8>,
    crc: u32,
}

impl CrcWriter {
    /// The bytes that the wrapped sink holds.
    pub closed spec fn sink(&self) -> Seq<u8> {
        self.inner@
    }

    /// The running register.
    pub closed spec fn register(&self) -> u32 {
        self.crc
    }

    /// Wraps `inner`. What `inner` already holds is not part of the checksum.
    pub fn new(inner: Vec<u8>) -> (writer: Self)
        ensures
            writer.sink() == inner@,
            writer.register() == CRC_INITIAL,
    {
        Self { inner, crc: CRC_INITIAL }
    }

    /// Writes all of `buf` to the sink and feeds it to the register.
    /// Returns the number of bytes written.
    pub fn write(&mut self, buf: &[u8]) -> (written: usize)
        ensures
            written == buf@.len(),
            final(self).sink() == old(self).sink() + buf@,
            final(self).register() == crc_fold(old(self).register(), buf@),
    {
        self.inner.extend_from_slice(buf);
        let mut i: usize = 0;
        while i < buf.len()
            invariant
                i <= buf@.len(),
                self.inner@ == old(self).inner@ + buf@,
                self.crc == crc_fold(old(self).crc, buf@.take(i as int)),
            decreases buf@.len() - i,
        {
            assert(buf@.take(i + 1).drop_last() =~= buf@.take(i as int));
            self.crc = update_crc(self.crc, buf[i]);
            i += 1;
        }
        assert(buf@.take(i as int) =~= buf@);
        i
    }

    /// Appends the checksum of what was written, most significant byte
    /// first, and hands the sink back.
    pub fn finish(self) -> (sink: Vec<u8>)
        ensures
            sink@ == self.sink() + be32(self.register() ^ CRC_INITIAL),
    {
        let final_crc = self.crc ^ CRC_INITIAL;
        let mut inner = self.inner;
        write_u32_be(&mut inner, final_crc);
        inner
    }
}

} // verus!
