//! The mathematical model of the streaming digest: block-wise processing,
//! the padding layout, and the digest of a whole message.

use vstd::prelude::*;

use crate::bytes::u32_le_bytes;
use crate::bytes::u64_le_bytes;
use crate::compress::MD5_IV;
use crate::compress::compress_spec;

verus! {

/// The initial state A, B, C, D.
pub open spec fn init_state() -> Seq<u32> {
    MD5_IV@
}

/// Folds the compression function over `msg` one 64-byte block at a time,
/// front to back; a tail shorter than a block is left unconsumed.
pub open spec fn process_blocks(s: Seq<u32>, msg: Seq<u8>) -> Seq<u32>
    decreases msg.len(),
{
    if msg.len() < 64 {
        s
    } else {
        process_blocks(compress_spec(s, msg.take(64)), msg.skip(64))
    }
}

/// How many zero bytes the padding inserts for a message of `l` bytes:
/// enough that `l + 1 + zeros` is 56 modulo 64.
pub open spec fn zero_pad_len(l: nat) -> int {
    (119 - l % 64) % 64
}

/// The bytes appended at finalize time: one 0x80 byte, zero bytes up to 56
/// modulo 64, then the bit length modulo 2^64, little-endian.
pub open spec fn pad_tail(l: nat) -> Seq<u8> {
    seq![0x80u8] + Seq::new(zero_pad_len(l) as nat, |i: int| 0u8) + u64_le_bytes(
        ((l * 8) % 0x1_0000_0000_0000_0000) as u64,
    )
}

/// A whole message with its padding: always a multiple of 64 bytes long.
pub open spec fn md5_padded(msg: Seq<u8>) -> Seq<u8> {
    msg + pad_tail(msg.len())
}

/// The MD5 digest of a byte sequence: the state after compressing every
/// block of the padded message, serialized as 16 little-endian bytes.
pub open spec fn md5_spec(msg: Seq<u8>) -> Seq<u8> {
    let s = process_blocks(init_state(), md5_padded(msg));
    u32_le_bytes(s[0]) + u32_le_bytes(s[1]) + u32_le_bytes(s[2]) + u32_le_bytes(s[3])
}

/// Processing a concatenation is processing the parts in turn, as long as
/// the first part is whole blocks.
pub proof fn lemma_process_blocks_concat(s: Seq<u32>, x: Seq<u8>, y: Seq<u8>)
    requires
        x.len() % 64 == 0,
    ensures
        process_blocks(s, x + y) == process_blocks(process_blocks(s, x), y),
    decreases x.len(),
{
    if x.len() == 0 {
        assert(x + y =~= y);
    } else {
        assert(x.len() >= 64);
        assert((x + y).take(64) =~= x.take(64));
        assert((x + y).skip(64) =~= x.skip(64) + y);
        vstd::arithmetic::div_mod::lemma_mod_sub_multiples_vanish(x.len() as int, 64);
        assert(x.skip(64).len() % 64 == 0);
        lemma_process_blocks_concat(compress_spec(s, x.take(64)), x.skip(64), y);
    }
}

/// A sequence whose length is whole blocks plus `r` remainder bytes has
/// length `r` modulo 64.
pub proof fn lemma_block_remainder(total: int, r: int)
    requires
        0 <= r < 64,
        r <= total,
        (total - r) % 64 == 0,
    ensures
        total % 64 == r,
{
    let q = (total - r) / 64;
    vstd::arithmetic::div_mod::lemma_fundamental_div_mod(total - r, 64);
    vstd::arithmetic::div_mod::lemma_fundamental_div_mod_converse_mod(total, 64, q, r);
}

/// Extending a well-split stream: when `ob` is the tail of `om` short of a
/// whole block, absorbing `input` on top of `ob` moves the processed
/// boundary of the grown stream `om + input` forward by whole blocks, and
/// leaves its new short tail.
pub proof fn lemma_stream_extend(s: Seq<u32>, om: Seq<u8>, ob: Seq<u8>, input: Seq<u8>)
    requires
        ob.len() < 64,
        ob.len() <= om.len(),
        (om.len() - ob.len()) % 64 == 0,
        ob == om.skip(om.len() - ob.len()),
    ensures
        ({
            let pfl = om.len() - ob.len();
            let all = ob + input;
            let fl = all.len() - all.len() % 64;
            let m2 = om + input;
            &&& (pfl + fl) % 64 == 0
            &&& pfl + fl == m2.len() - all.len() % 64
            &&& all.skip(fl) == m2.skip(pfl + fl)
            &&& process_blocks(process_blocks(s, om.take(pfl)), all.take(fl)) == process_blocks(
                s,
                m2.take(pfl + fl),
            )
        }),
{
    let pfl = om.len() - ob.len();
    let all = ob + input;
    let r = all.len() % 64;
    let fl = all.len() - r;
    let m2 = om + input;
    vstd::arithmetic::div_mod::lemma_fundamental_div_mod(all.len() as int, 64);
    vstd::arithmetic::div_mod::lemma_mod_multiples_basic(all.len() as int / 64, 64);
    assert(fl % 64 == 0);
    vstd::arithmetic::div_mod::lemma_add_mod_noop(pfl, fl, 64);
    assert((pfl + fl) % 64 == 0);
    lemma_process_blocks_concat(s, om.take(pfl), all.take(fl));
    assert(om.take(pfl) + all.take(fl) =~= m2.take(pfl + fl));
    assert(all.skip(fl) =~= m2.skip(pfl + fl));
}

/// The stream model of a digest after it was fed `chunks`, one `update`
/// call per chunk, starting from the stream `m`: each call appends its
/// chunk, exactly as `Md5::update` ensures.
pub open spec fn stream_after_chunks(m: Seq<u8>, chunks: Seq<Seq<u8>>) -> Seq<u8>
    decreases chunks.len(),
{
    if chunks.len() == 0 {
        m
    } else {
        stream_after_chunks(m + chunks.first(), chunks.drop_first())
    }
}

/// Chunking invariance over any partition: feeding any sequence of chunks
/// one `update` call at a time yields the stream of their concatenation,
/// so the digest `md5_spec` of what was fed depends only on the overall
/// bytes, never on how they were cut into chunks.
pub proof fn lemma_stream_after_chunks(m: Seq<u8>, chunks: Seq<Seq<u8>>)
    ensures
        stream_after_chunks(m, chunks) == m + chunks.flatten(),
    decreases chunks.len(),
{
    if chunks.len() == 0 {
        assert(m + chunks.flatten() =~= m);
    } else {
        lemma_stream_after_chunks(m + chunks.first(), chunks.drop_first());
        assert((m + chunks.first()) + chunks.drop_first().flatten() =~= m + chunks.flatten());
    }
}

/// Chunking invariance: a stream split at any point and fed as two
/// consecutive chunks has the same digest as the whole stream.  Together
/// with `lemma_stream_after_chunks` and `Md5::update`, which only ever
/// appends its input to the stream model, this extends to any partition of
/// the input into consecutive chunks.
pub proof fn lemma_chunking_invariance(s: Seq<u8>, cut: int)
    requires
        0 <= cut <= s.len(),
    ensures
        md5_spec(s.take(cut) + s.skip(cut)) == md5_spec(s),
{
    assert(s.take(cut) + s.skip(cut) =~= s);
}

} // verus!
