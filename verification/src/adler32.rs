//! Adler-32, the checksum that closes a zlib stream.
//!
//! The checksum is defined by its two sums over the whole input. The writer
//! keeps both sums up to date byte by byte, and is proved to arrive at the
//! same value, however the input is cut into writes.

use crate::bytes::{be32, concat, write_u32_be};
use vstd::arithmetic::div_mod::lemma_add_mod_noop;
use vstd::prelude::*;

verus! {

/// The checksum of the empty input.
pub const ADLER32_INITIAL: u32 = 1;

/// The largest prime below 65536.
pub const ADLER32_MOD: u32 = 65521;

/// The sum of `bytes`.
pub open spec fn byte_sum(bytes: Seq<u8>) -> int
    decreases bytes.len(),
{
    if bytes.len() == 0 {
        0
    } else {
        byte_sum(bytes.drop_last()) + bytes.last()
    }
}

/// The sum, over every prefix of `bytes` but the empty one, of one plus the
/// sum of the prefix.
pub open spec fn prefix_sum(bytes: Seq<u8>) -> int
    decreases bytes.len(),
{
    if bytes.len() == 0 {
        0
    } else {
        prefix_sum(bytes.drop_last()) + 1 + byte_sum(bytes)
    }
}

/// The low half of the checksum: one plus the sum of the bytes, reduced.
pub open spec fn adler_low(bytes: Seq<u8>) -> u32 {
    ((1 + byte_sum(bytes)) % (ADLER32_MOD as int)) as u32
}

/// The high half of the checksum: the sum of the low halves of all
/// prefixes, reduced.
pub open spec fn adler_high(bytes: Seq<u8>) -> u32 {
    (prefix_sum(bytes) % (ADLER32_MOD as int)) as u32
}

/// The two sums put into one word, the second one in the high half.
pub open spec fn adler_pack(sums: (u32, u32)) -> u32
    recommends
        sums.0 < 0x1_0000,
        sums.1 < 0x1_0000,
{
    (sums.1 * 0x1_0000 + sums.0) as u32
}

/// The Adler-32 of `bytes`.
pub open spec fn adler32_checksum(bytes: Seq<u8>) -> u32 {
    adler_pack((adler_low(bytes), adler_high(bytes)))
}

/// The running sums of a writer that has seen nothing.
pub open spec fn adler_initial() -> (u32, u32) {
    (1, 0)
}

/// The running sums after one more byte.
pub open spec fn adler_update(sums: (u32, u32), byte: u8) -> (u32, u32) {
    let s1 = (sums.0 + byte) % (ADLER32_MOD as int);
    let s2 = (sums.1 + s1) % (ADLER32_MOD as int);
    (s1 as u32, s2 as u32)
}

/// The running sums after `bytes`, starting from `sums`.
pub open spec fn adler_fold(sums: (u32, u32), bytes: Seq<u8>) -> (u32, u32)
    decreases bytes.len(),
{
    if bytes.len() == 0 {
        sums
    } else {
        adler_update(adler_fold(sums, bytes.drop_last()), bytes.last())
    }
}

/// The running sums after each of `chunks` in turn, starting from `sums`.
pub open spec fn adler_fold_chunks(sums: (u32, u32), chunks: Seq<Seq<u8>>) -> (u32, u32)
    decreases chunks.len(),
{
    if chunks.len() == 0 {
        sums
    } else {
        adler_fold(adler_fold_chunks(sums, chunks.drop_last()), chunks.last())
    }
}

/// Both running sums are reduced.
pub open spec fn adler_reduced(sums: (u32, u32)) -> bool {
    sums.0 < ADLER32_MOD && sums.1 < ADLER32_MOD
}

/// Feeding `a` and then `b` leaves the sums that feeding `a + b` leaves.
pub proof fn lemma_adler_fold_concat(sums: (u32, u32), a: Seq<u8>, b: Seq<u8>)
    ensures
        adler_fold(sums, a + b) == adler_fold(adler_fold(sums, a), b),
    decreases b.len(),
{
    if b.len() > 0 {
        assert((a + b).drop_last() =~= a + b.drop_last());
        lemma_adler_fold_concat(sums, a, b.drop_last());
    }
}

/// The running sums, kept byte by byte from the start, are the two halves of
/// the checksum of all that was fed.
pub proof fn lemma_adler_fold_is_checksum(bytes: Seq<u8>)
    ensures
        adler_fold(adler_initial(), bytes) == (adler_low(bytes), adler_high(bytes)),
        adler_pack(adler_fold(adler_initial(), bytes)) == adler32_checksum(bytes),
    decreases bytes.len(),
{
    let m = ADLER32_MOD as int;
    if bytes.len() > 0 {
        let front = bytes.drop_last();
        let byte = bytes.last() as int;
        lemma_adler_fold_is_checksum(front);
        // The first sum: reducing before the byte is added changes nothing.
        lemma_add_mod_noop(1 + byte_sum(front), byte, m);
        assert(byte % m == byte);
        assert(((1 + byte_sum(front)) % m + byte) % m == (1 + byte_sum(bytes)) % m);
        // The second sum: it grows by the first sum, reduced or not.
        lemma_add_mod_noop(prefix_sum(front), 1 + byte_sum(bytes), m);
        assert((1 + byte_sum(bytes)) % m % m == (1 + byte_sum(bytes)) % m);
    }
}

/// However a byte sequence is cut into chunks, feeding the chunks one by one
/// leaves the sums that feeding the whole leaves, and so gives the Adler-32
/// of the whole.
pub proof fn lemma_adler_streaming(sums: (u32, u32), chunks: Seq<Seq<u8>>)
    ensures
        adler_fold_chunks(sums, chunks) == adler_fold(sums, concat(chunks)),
        adler_pack(adler_fold_chunks(adler_initial(), chunks)) == adler32_checksum(concat(chunks)),
    decreases chunks.len(),
{
    if chunks.len() > 0 {
        lemma_adler_streaming(sums, chunks.drop_last());
        lemma_adler_fold_concat(sums, concat(chunks.drop_last()), chunks.last());
        lemma_adler_streaming(adler_initial(), chunks.drop_last());
        lemma_adler_fold_concat(adler_initial(), concat(chunks.drop_last()), chunks.last());
    }
    lemma_adler_fold_is_checksum(concat(chunks));
}

/// The Adler-32 of `bytes`, computed in one pass.
pub fn adler32(bytes: &[u8]) -> (checksum: u32)
    ensures
        checksum == adler32_checksum(bytes@),
{
    let mut s1: u32 = 1;
    let mut s2: u32 = 0;
    let mut i: usize = 0;
    while i < bytes.len()
        invariant
            i <= bytes@.len(),
            s1 < ADLER32_MOD,
            s2 < ADLER32_MOD,
            (s1, s2) == adler_fold(adler_initial(), bytes@.take(i as int)),
        decreases bytes@.len() - i,
    {
        assert(bytes@.take(i + 1).drop_last() =~= bytes@.take(i as int));
        s1 = (s1 + bytes[i] as u32) % ADLER32_MOD;
        s2 = (s2 + s1) % ADLER32_MOD;
        i += 1;
    }
    proof {
        assert(bytes@.take(i as int) =~= bytes@);
        lemma_adler_fold_is_checksum(bytes@);
        lemma_pack_by_shift(s1, s2);
    }
    (s2 << 16) | s1
}

/// With both halves below 65536, shifting and or-ing packs them.
proof fn lemma_pack_by_shift(s1: u32, s2: u32)
    requires
        s1 < 0x1_0000,
        s2 < 0x1_0000,
    ensures
        (s2 << 16) | s1 == adler_pack((s1, s2)),
{
    assert((s2 << 16) | s1 == s2 * 0x1_0000 + s1) by (bit_vector)
        requires
            s1 < 0x1_0000,
            s2 < 0x1_0000,
    ;
}

/// A byte sink that keeps the Adler-32 of what passes through it.
///
/// Every write goes on to the wrapped sink unchanged and into the two
/// running sums. `finish` appends the checksum and hands the sink back.
#[derive(Debug)]
pub struct Adler32Writer {
    inner: Vec<u8>,
    s1: u32,
    s2: u32,
}

impl Adler32Writer {
    /// The bytes that the wrapped sink holds.
    pub closed spec fn sink(&self) -> Seq<u8> {
        self.inner@
    }

    /// The two running sums.
    pub closed spec fn sums(&self) -> (u32, u32) {
        (self.s1, self.s2)
    }

    /// Both running sums are reduced. Holds of every writer that `new` made.
    pub open spec fn wf(&self) -> bool {
        adler_reduced(self.sums())
    }

    /// Wraps `inner`. What `inner` already holds is not part of the checksum.
    pub fn new(inner: Vec<u8>) -> (writer: Self)
        ensures
            writer.wf(),
            writer.sink() == inner@,
            writer.sums() == adler_initial(),
    {
        assert(ADLER32_INITIAL & 0xFFFF == 1 && (ADLER32_INITIAL >> 16) & 0xFFFF == 0) by (bit_vector);
        Self { inner, s1: ADLER32_INITIAL & 0xFFFF, s2: (ADLER32_INITIAL >> 16) & 0xFFFF }
    }

    /// Writes all of `buf` to the sink and feeds it to the running sums.
    /// Returns the number of bytes written.
    pub fn write(&mut self, buf: &[u8]) -> (written: usize)
        requires
            old(self).wf(),
        ensures
            final(self).wf(),
            written == buf@.len(),
            final(self).sink() == old(self).sink() + buf@,
            final(self).sums() == adler_fold(old(self).sums(), buf@),
    {
        self.inner.extend_from_slice(buf);
        let mut i: usize = 0;
        while i < buf.len()
            invariant
                i <= buf@.len(),
                self.inner@ == old(self).inner@ + buf@,
                self.s1 < ADLER32_MOD,
                self.s2 < ADLER32_MOD,
                (self.s1, self.s2) == adler_fold(old(self).sums(), buf@.take(i as int)),
            decreases buf@.len() - i,
        {
            assert(buf@.take(i + 1).drop_last() =~= buf@.take(i as int));
            self.s1 = (self.s1 + buf[i] as u32) % ADLER32_MOD;
            self.s2 = (self.s2 + self.s1) % ADLER32_MOD;
            i += 1;
        }
        assert(buf@.take(i as int) =~= buf@);
        i
    }

    /// Appends the checksum of what was written, most significant byte
    /// first, and hands the sink back.
    pub fn finish(self) -> (sink: Vec<u8>)
        requires
            self.wf(),
        ensures
            sink@ == self.sink() + be32(adler_pack(self.sums())),
    {
        proof {
            lemma_pack_by_shift(self.s1, self.s2);
        }
        let adler32 = (self.s2 << 16) | self.s1;
        let mut inner = self.inner;
        write_u32_be(&mut inner, adler32);
        inner
    }
}

} // verus!
