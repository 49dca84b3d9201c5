//! DEFLATE with stored blocks only: the input goes out as it is, cut into
//! blocks of at most 65535 bytes, each behind a five-byte header.

use crate::bytes::{concat, le16, take_sink, u16_to_le_bytes};
use vstd::prelude::*;
use vstd::slice::slice_subrange;

verus! {

/// The most bytes that one stored block can carry.
pub const MAX_BLOCK_LEN: usize = 0xFFFF;

/// One stored block of a DEFLATE stream.
pub struct StoredBlock {
    /// Whether the stream ends with this block.
    pub final_flag: bool,
    /// The number of payload bytes.
    pub len: u16,
    /// The one's complement of `len`.
    pub nlen: u16,
    /// The bytes that the block carries.
    pub payload: Seq<u8>,
}

impl StoredBlock {
    /// The two lengths agree with each other and with the payload.
    pub open spec fn wf(self) -> bool {
        &&& self.payload.len() == self.len
        &&& self.nlen == !self.len
    }

    /// The header byte: bit 0 says whether the block is the last one, bits 1
    /// and 2 are `00` for a stored block, and the other bits are zero.
    pub open spec fn header(self) -> u8 {
        if self.final_flag {
            1
        } else {
            0
        }
    }

    /// The block as it stands in the stream: header byte, `len` and `nlen`
    /// least significant byte first, then the payload.
    pub open spec fn bytes(self) -> Seq<u8> {
        seq![self.header()] + le16(self.len) + le16(self.nlen) + self.payload
    }
}

/// The stored block that carries `payload`.
pub open spec fn stored_block(final_flag: bool, payload: Seq<u8>) -> StoredBlock
    recommends
        payload.len() <= MAX_BLOCK_LEN,
{
    StoredBlock {
        final_flag,
        len: payload.len() as u16,
        nlen: !(payload.len() as u16),
        payload,
    }
}

/// The blocks of `blocks` as they stand in the stream, one after the other.
pub open spec fn blocks_bytes(blocks: Seq<StoredBlock>) -> Seq<u8>
    decreases blocks.len(),
{
    if blocks.len() == 0 {
        Seq::empty()
    } else {
        blocks.first().bytes() + blocks_bytes(blocks.drop_first())
    }
}

/// The payloads of `blocks`, one after the other.
pub open spec fn payloads(blocks: Seq<StoredBlock>) -> Seq<u8>
    decreases blocks.len(),
{
    if blocks.len() == 0 {
        Seq::empty()
    } else {
        blocks.first().payload + payloads(blocks.drop_first())
    }
}

/// The full blocks that can be cut off the front of `data` while more than
/// one block's worth is left. None of them ends the stream.
pub open spec fn full_blocks(data: Seq<u8>) -> Seq<StoredBlock>
    decreases data.len(),
{
    if data.len() <= MAX_BLOCK_LEN {
        Seq::empty()
    } else {
        seq![stored_block(false, data.take(MAX_BLOCK_LEN as int))] + full_blocks(
            data.skip(MAX_BLOCK_LEN as int),
        )
    }
}

/// What is left of `data` behind its full blocks: at most one block's worth.
pub open spec fn remainder(data: Seq<u8>) -> Seq<u8>
    decreases data.len(),
{
    if data.len() <= MAX_BLOCK_LEN {
        data
    } else {
        remainder(data.skip(MAX_BLOCK_LEN as int))
    }
}

/// The blocks of the stream that stores `data`: the full blocks, then one
/// last block with what is left, which may be nothing.
pub open spec fn split_blocks(data: Seq<u8>) -> Seq<StoredBlock> {
    full_blocks(data).push(stored_block(true, remainder(data)))
}

/// The DEFLATE stream that stores `data`.
pub open spec fn stored_stream(data: Seq<u8>) -> Seq<u8> {
    blocks_bytes(split_blocks(data))
}

/// The number of blocks in the stream that stores `n` bytes: `n / 65535`
/// rounded up, and one for no bytes at all.
pub open spec fn block_count(n: nat) -> nat {
    if n == 0 {
        1
    } else {
        ((n + MAX_BLOCK_LEN - 1) / MAX_BLOCK_LEN as int) as nat
    }
}

/// The blocks written after each of `chunks` was handed to a writer in turn.
pub open spec fn streamed_blocks(chunks: Seq<Seq<u8>>) -> Seq<StoredBlock>
    decreases chunks.len(),
{
    if chunks.len() == 0 {
        Seq::empty()
    } else {
        streamed_blocks(chunks.drop_last()) + full_blocks(
            streamed_pending(chunks.drop_last()) + chunks.last(),
        )
    }
}

/// The bytes that a writer holds back after each of `chunks` was handed to
/// it in turn.
pub open spec fn streamed_pending(chunks: Seq<Seq<u8>>) -> Seq<u8>
    decreases chunks.len(),
{
    if chunks.len() == 0 {
        Seq::empty()
    } else {
        remainder(streamed_pending(chunks.drop_last()) + chunks.last())
    }
}

/// One list of blocks after another stands in the stream as the bytes of the
/// first followed by the bytes of the second.
pub proof fn lemma_blocks_bytes_concat(a: Seq<StoredBlock>, b: Seq<StoredBlock>)
    ensures
        blocks_bytes(a + b) == blocks_bytes(a) + blocks_bytes(b),
    decreases a.len(),
{
    if a.len() > 0 {
        assert((a + b).drop_first() =~= a.drop_first() + b);
        lemma_blocks_bytes_concat(a.drop_first(), b);
    }
}

/// The payloads of one list of blocks after another are the payloads of the
/// first followed by those of the second.
pub proof fn lemma_payloads_concat(a: Seq<StoredBlock>, b: Seq<StoredBlock>)
    ensures
        payloads(a + b) == payloads(a) + payloads(b),
    decreases a.len(),
{
    if a.len() > 0 {
        assert((a + b).drop_first() =~= a.drop_first() + b);
        lemma_payloads_concat(a.drop_first(), b);
    }
}

/// A single block stands in the stream as its own bytes.
pub proof fn lemma_blocks_bytes_single(block: StoredBlock)
    ensures
        blocks_bytes(seq![block]) == block.bytes(),
        payloads(seq![block]) == block.payload,
{
    let none = Seq::<StoredBlock>::empty();
    assert(seq![block].drop_first() =~= none);
    assert(blocks_bytes(none) =~= Seq::<u8>::empty());
    assert(payloads(none) =~= Seq::<u8>::empty());
}

/// The stream that stores `data` is its full blocks followed by the last
/// block.
pub proof fn lemma_stored_stream_parts(data: Seq<u8>)
    ensures
        stored_stream(data) == blocks_bytes(full_blocks(data)) + stored_block(
            true,
            remainder(data),
        ).bytes(),
{
    let last = stored_block(true, remainder(data));
    assert(split_blocks(data) =~= full_blocks(data) + seq![last]);
    lemma_blocks_bytes_concat(full_blocks(data), seq![last]);
    lemma_blocks_bytes_single(last);
}

/// The stream that stores `data` is longer than `data` by five bytes for
/// each block.
pub proof fn lemma_stored_stream_len(data: Seq<u8>)
    ensures
        stored_stream(data).len() == data.len() + 5 * block_count(data.len()),
{
    lemma_stored_stream_parts(data);
    lemma_full_blocks_bytes_len(data);
    lemma_full_blocks(data);
}

/// The full blocks of `data` take five bytes each and the bytes that they
/// carry.
proof fn lemma_full_blocks_bytes_len(data: Seq<u8>)
    ensures
        blocks_bytes(full_blocks(data)).len() + remainder(data).len() == data.len() + 5
            * full_blocks(data).len(),
    decreases data.len(),
{
    if data.len() > MAX_BLOCK_LEN {
        let head = stored_block(false, data.take(MAX_BLOCK_LEN as int));
        let tail = data.skip(MAX_BLOCK_LEN as int);
        lemma_full_blocks_bytes_len(tail);
        lemma_blocks_bytes_concat(seq![head], full_blocks(tail));
        lemma_blocks_bytes_single(head);
    }
}

/// What is left behind the full blocks fits in one block.
pub proof fn lemma_remainder_fits(data: Seq<u8>)
    ensures
        remainder(data).len() <= MAX_BLOCK_LEN,
        remainder(data).len() <= data.len(),
    decreases data.len(),
{
    if data.len() > MAX_BLOCK_LEN {
        lemma_remainder_fits(data.skip(MAX_BLOCK_LEN as int));
    }
}

/// Of the full blocks of `data`: how many there are, that each is well
/// formed, full and not the last of the stream, and that their payloads
/// with what is left make up `data`.
pub proof fn lemma_full_blocks(data: Seq<u8>)
    ensures
        full_blocks(data).len() + 1 == block_count(data.len()),
        forall|i: int|
            0 <= i < full_blocks(data).len() ==> {
                &&& (#[trigger] full_blocks(data)[i]).wf()
                &&& full_blocks(data)[i].len == MAX_BLOCK_LEN
                &&& !full_blocks(data)[i].final_flag
            },
        payloads(full_blocks(data)) + remainder(data) == data,
    decreases data.len(),
{
    if data.len() > MAX_BLOCK_LEN {
        let head = stored_block(false, data.take(MAX_BLOCK_LEN as int));
        let tail = data.skip(MAX_BLOCK_LEN as int);
        lemma_full_blocks(tail);
        lemma_payloads_concat(seq![head], full_blocks(tail));
        lemma_blocks_bytes_single(head);
        assert(head.payload + tail =~= data);
    }
}

/// Of the stream that stores `data`: it has `block_count` blocks; each block
/// is well formed, so that `nlen` is the complement of `len` and `len` is
/// the length of the payload; the payloads, one after the other, are
/// `data`; and the last block, and no other, ends the stream.
pub proof fn lemma_split_blocks(data: Seq<u8>)
    ensures
        split_blocks(data).len() == block_count(data.len()),
        forall|i: int|
            0 <= i < split_blocks(data).len() ==> (#[trigger] split_blocks(data)[i]).wf(),
        payloads(split_blocks(data)) == data,
        forall|i: int|
            0 <= i < split_blocks(data).len() ==> ((#[trigger] split_blocks(data)[i]).final_flag
                <==> i == split_blocks(data).len() - 1),
{
    let last = stored_block(true, remainder(data));
    lemma_full_blocks(data);
    lemma_remainder_fits(data);
    assert(split_blocks(data) =~= full_blocks(data) + seq![last]);
    lemma_payloads_concat(full_blocks(data), seq![last]);
    lemma_blocks_bytes_single(last);
}

/// Cutting `a + b` into blocks is cutting `a`, and then cutting what was
/// left of `a` followed by `b`.
pub proof fn lemma_full_blocks_concat(a: Seq<u8>, b: Seq<u8>)
    ensures
        full_blocks(a + b) == full_blocks(a) + full_blocks(remainder(a) + b),
        remainder(a + b) == remainder(remainder(a) + b),
    decreases a.len(),
{
    if a.len() > MAX_BLOCK_LEN {
        let cut = MAX_BLOCK_LEN as int;
        assert((a + b).take(cut) =~= a.take(cut));
        assert((a + b).skip(cut) =~= a.skip(cut) + b);
        lemma_full_blocks_concat(a.skip(cut), b);
    }
}

/// With less than a block held back and more to come than the block has
/// room for, the first full block is what is held back, topped up from what
/// comes; the other blocks and what is left are those of the rest.
proof fn lemma_top_up(held: Seq<u8>, more: Seq<u8>)
    requires
        held.len() <= MAX_BLOCK_LEN,
        more.len() > MAX_BLOCK_LEN - held.len(),
    ensures
        ({
            let room = MAX_BLOCK_LEN - held.len();
            let head = stored_block(false, held + more.take(room));
            &&& blocks_bytes(full_blocks(held + more)) == head.bytes() + blocks_bytes(
                full_blocks(more.skip(room)),
            )
            &&& remainder(held + more) == remainder(more.skip(room))
        }),
{
    let room = MAX_BLOCK_LEN - held.len();
    let whole = held + more;
    let head = stored_block(false, held + more.take(room));
    let tail = full_blocks(more.skip(room));
    assert(whole.take(MAX_BLOCK_LEN as int) =~= held + more.take(room));
    assert(whole.skip(MAX_BLOCK_LEN as int) =~= more.skip(room));
    assert(full_blocks(whole) == seq![head] + tail);
    lemma_blocks_bytes_concat(seq![head], tail);
    lemma_blocks_bytes_single(head);
}

/// However a byte sequence is cut into writes, the writer has written the
/// full blocks of the whole and holds back what is left of the whole.
pub proof fn lemma_deflate_streaming(chunks: Seq<Seq<u8>>)
    ensures
        streamed_blocks(chunks) == full_blocks(concat(chunks)),
        streamed_pending(chunks) == remainder(concat(chunks)),
    decreases chunks.len(),
{
    if chunks.len() > 0 {
        lemma_deflate_streaming(chunks.drop_last());
        lemma_full_blocks_concat(concat(chunks.drop_last()), chunks.last());
    }
}

/// However a byte sequence is cut into writes, the blocks that the writer
/// has written, followed by a last block with what it holds back, are the
/// stream that stores the whole.
pub proof fn lemma_streamed_stream(chunks: Seq<Seq<u8>>)
    ensures
        blocks_bytes(streamed_blocks(chunks)) + stored_block(
            true,
            streamed_pending(chunks),
        ).bytes() == stored_stream(concat(chunks)),
{
    lemma_deflate_streaming(chunks);
    lemma_stored_stream_parts(concat(chunks));
}

/// A byte sink that stores what passes through it in DEFLATE blocks.
///
/// Bytes are held back until more than one block's worth has come together;
/// then full blocks go out to the wrapped sink, none of them ending the
/// stream. `flush` writes what is held back as a block of its own, and that
/// block ends the stream if `set_final_block` said so: then it is written
/// even if it carries nothing. `finish` does the same and hands the sink
/// back. Once a block has ended the stream the flag is down again, so that
/// a second `flush`, or `finish` behind `flush`, does not end it twice.
#[derive(Debug)]
pub struct DeflateNoCompressionWriter {
    inner: Vec<u8>,
    buffer: Vec<u8>,
    final_block: bool,
}

impl DeflateNoCompressionWriter {
    /// The bytes that the wrapped sink holds.
    pub closed spec fn sink(&self) -> Seq<u8> {
        self.inner@
    }

    /// The bytes that were written to this writer and are held back.
    pub closed spec fn pending(&self) -> Seq<u8> {
        self.buffer@
    }

    /// Whether the next block that `flush` or `finish` writes ends the
    /// stream.
    pub closed spec fn is_final_block(&self) -> bool {
        self.final_block
    }

    /// At most one block's worth is held back. Holds of every writer that
    /// `new` made.
    pub open spec fn wf(&self) -> bool {
        self.pending().len() <= MAX_BLOCK_LEN
    }

    /// Wraps `writer`. No block ends the stream unless `set_final_block`
    /// says so.
    pub fn new(writer: Vec<u8>) -> (deflate: Self)
        ensures
            deflate.wf(),
            deflate.sink() == writer@,
            deflate.pending() == Seq::<u8>::empty(),
            !deflate.is_final_block(),
    {
        Self { inner: writer, buffer: Vec::new(), final_block: false }
    }

    /// Sets whether the next block that `flush` or `finish` writes ends the
    /// stream.
    pub fn set_final_block(&mut self, final_block: bool)
        ensures
            final(self).is_final_block() == final_block,
            final(self).sink() == old(self).sink(),
            final(self).pending() == old(self).pending(),
    {
        self.final_block = final_block;
    }

    /// Takes all of `buf`, and writes full blocks to the sink while more
    /// than one block's worth is held back. Returns the number of bytes
    /// taken.
    pub fn write(&mut self, buf: &[u8]) -> (written: usize)
        requires
            old(self).wf(),
        ensures
            final(self).wf(),
            written == buf@.len(),
            final(self).is_final_block() == old(self).is_final_block(),
            final(self).sink() == old(self).sink() + blocks_bytes(
                full_blocks(old(self).pending() + buf@),
            ),
            final(self).pending() == remainder(old(self).pending() + buf@),
    {
        let ghost whole = old(self).buffer@ + buf@;
        let mut taken: usize = 0;
        assert(self.buffer@ + buf@.skip(0) =~= whole);
        // While a block is full and more follows, the block goes out.
        while buf.len() - taken > MAX_BLOCK_LEN - self.buffer.len()
            invariant
                taken <= buf@.len(),
                self.buffer@.len() <= MAX_BLOCK_LEN,
                self.final_block == old(self).final_block,
                self.inner@ + blocks_bytes(full_blocks(self.buffer@ + buf@.skip(taken as int)))
                    == old(self).inner@ + blocks_bytes(full_blocks(whole)),
                remainder(self.buffer@ + buf@.skip(taken as int)) == remainder(whole),
            decreases buf@.len() - taken, self.buffer@.len(),
        {
            let room = MAX_BLOCK_LEN - self.buffer.len();
            let ghost held = self.buffer@;
            let ghost more = buf@.skip(taken as int);
            let ghost sink = self.inner@;
            proof {
                lemma_top_up(held, more);
            }
            self.buffer.extend_from_slice(slice_subrange(buf, taken, taken + room));
            assert(self.buffer@ =~= held + more.take(room as int));
            assert(self.buffer@.take(MAX_BLOCK_LEN as int) =~= self.buffer@);
            taken += room;
            self.write_block(MAX_BLOCK_LEN, false);
            proof {
                let head = stored_block(false, held + more.take(room as int));
                let rest = more.skip(room as int);
                assert(self.buffer@ =~= Seq::<u8>::empty());
                assert(self.buffer@ + buf@.skip(taken as int) =~= rest);
                assert(self.inner@ == sink + head.bytes());
                assert(self.inner@ + blocks_bytes(full_blocks(rest)) =~= sink + (head.bytes()
                    + blocks_bytes(full_blocks(rest))));
            }
        }
        self.buffer.extend_from_slice(slice_subrange(buf, taken, buf.len()));
        buf.len()
    }

    /// Writes what is held back as a block of its own. If `set_final_block`
    /// said so, the block ends the stream, and it is written even if nothing
    /// is held back; the flag is down afterwards. If not, the block does not
    /// end the stream, and nothing is written if nothing is held back.
    pub fn flush(&mut self)
        requires
            old(self).wf(),
        ensures
            final(self).wf(),
            !final(self).is_final_block(),
            final(self).pending() == Seq::<u8>::empty(),
            final(self).sink() == if old(self).is_final_block() || old(self).pending().len()
                > 0 {
                old(self).sink() + stored_block(
                    old(self).is_final_block(),
                    old(self).pending(),
                ).bytes()
            } else {
                old(self).sink()
            },
    {
        if self.final_block || !self.buffer.is_empty() {
            let len = self.buffer.len();
            let final_flag = self.final_block;
            assert(self.buffer@.take(len as int) =~= self.buffer@);
            self.write_block(len, final_flag);
            self.final_block = false;
        }
        assert(self.buffer@ =~= Seq::<u8>::empty());
    }

    /// Writes what is held back as `flush` does, and hands the sink back:
    /// the block ends the stream if `set_final_block` said so and `flush`
    /// has not ended it since; if not and nothing is held back, no block is
    /// written.
    pub fn finish(self) -> (sink: Vec<u8>)
        requires
            self.wf(),
        ensures
            sink@ == if self.is_final_block() || self.pending().len() > 0 {
                self.sink() + stored_block(self.is_final_block(), self.pending()).bytes()
            } else {
                self.sink()
            },
    {
        let mut last = self;
        last.flush();
        last.inner
    }

    /// Writes the first `size` bytes that are held back as one block.
    fn write_block(&mut self, size: usize, final_flag: bool)
        requires
            size <= old(self).pending().len(),
            size <= MAX_BLOCK_LEN,
        ensures
            final(self).is_final_block() == old(self).is_final_block(),
            final(self).sink() == old(self).sink() + stored_block(
                final_flag,
                old(self).pending().take(size as int),
            ).bytes(),
            final(self).pending() == old(self).pending().skip(size as int),
    {
        // One bit for the last block, two bits for the block type (00 = stored).
        let header_byte: u8 = if final_flag {
            0b0000_0001
        } else {
            0b0000_0000
        };
        self.inner.push(header_byte);

        // LEN and NLEN, the one's complement of LEN, least significant byte first.
        let len = size as u16;
        let nlen = !len;
        let len_bytes = u16_to_le_bytes(len);
        let nlen_bytes = u16_to_le_bytes(nlen);
        self.inner.extend_from_slice(len_bytes.as_slice());
        self.inner.extend_from_slice(nlen_bytes.as_slice());

        // The payload leaves the buffer.
        self.inner.extend_from_slice(slice_subrange(self.buffer.as_slice(), 0, size));
        if size == self.buffer.len() {
            self.buffer.clear();
        } else {
            let rest = self.buffer.split_off(size);
            self.buffer = rest;
        }

    }
}

/// Appends to `writer` the DEFLATE stream that stores `data`.
pub fn deflate_stored(data: &[u8], writer: &mut Vec<u8>)
    ensures
        final(writer)@ == old(writer)@ + stored_stream(data@),
{
    let mut deflate = DeflateNoCompressionWriter::new(take_sink(writer));
    deflate.set_final_block(true);
    deflate.write(data);
    *writer = deflate.finish();
    proof {
        lemma_stored_stream_parts(data@);
    }
}

} // verus!
