//! An incrementally verified MD5 digest.
//!
//! The digest of a byte stream is stated once, mathematically, as
//! [`stream::md5_spec`]; the streaming type [`Md5`] is proved to compute
//! exactly that for whatever bytes it was fed, however they were chunked.

use vstd::prelude::*;

pub mod bytes;
pub mod compress;
pub mod stream;

pub use bytes::encode_bit_length;
pub use stream::lemma_chunking_invariance;
pub use stream::lemma_stream_after_chunks;
pub use stream::md5_spec;

verus! {

/// Sum of integers, reduced modulo 2^32: the wrapping arithmetic every MD5
/// step is defined over.
pub open spec fn sum32(x: int) -> u32 {
    (x % 0x1_0000_0000) as u32
}

/// Feeds `input` into the running state through `buffer`: the buffer fills
/// byte by byte, and every time it reaches a whole 64-byte block the block
/// is compressed and the buffer emptied.  Afterwards the buffer holds
/// exactly the tail of `buffer + input` that is short of a block, and the
/// state has absorbed everything before that tail.
#[verifier::rlimit(100)]
fn absorb(state: &mut [u32; 4], buffer: &mut Vec<u8>, input: &[u8])
    requires
        old(buffer)@.len() < 64,
    ensures
        ({
            let all = old(buffer)@ + input@;
            let fl = all.len() - all.len() % 64;
            &&& final(buffer)@.len() == all.len() % 64
            &&& final(buffer)@ == all.skip(fl as int)
            &&& final(state)@ == stream::process_blocks(old(state)@, all.take(fl as int))
        }),
{
    let mut i: usize = 0;
    while i < input.len()
        invariant
            i <= input@.len(),
            buffer@.len() < 64,
            ({
                let cur = old(buffer)@ + input@.take(i as int);
                let fl = cur.len() - buffer@.len();
                &&& buffer@.len() <= cur.len()
                &&& (fl as int) % 64 == 0
                &&& buffer@ == cur.skip(fl as int)
                &&& state@ == stream::process_blocks(old(state)@, cur.take(fl as int))
            }),
        decreases input@.len() - i,
    {
        let ghost cur = old(buffer)@ + input@.take(i as int);
        let ghost fl = (cur.len() - buffer@.len()) as int;
        let byte = input[i];
        buffer.push(byte);
        let ghost cur2 = old(buffer)@ + input@.take(i as int + 1);
        proof {
            assert(input@.take(i as int + 1) =~= input@.take(i as int) + seq![byte]);
            assert(cur2 =~= cur + seq![byte]);
            assert(cur2.take(fl) =~= cur.take(fl));
            assert(buffer@ =~= cur2.skip(fl));
        }
        if buffer.len() == 64 {
            let ghost pfx = cur.take(fl);
            compress::compress(state, buffer.as_slice());
            proof {
                let x0 = stream::process_blocks(old(state)@, pfx);
                assert(buffer@.take(64) =~= buffer@);
                assert(buffer@.skip(64) =~= Seq::<u8>::empty());
                assert(stream::process_blocks(x0, buffer@) == stream::process_blocks(
                    compress::compress_spec(x0, buffer@),
                    Seq::<u8>::empty(),
                ));
                assert(stream::process_blocks(x0, buffer@) == compress::compress_spec(
                    x0,
                    buffer@,
                ));
                stream::lemma_process_blocks_concat(old(state)@, pfx, buffer@);
                assert(pfx + buffer@ =~= cur2);
                assert(state@ == stream::process_blocks(old(state)@, cur2));
            }
            buffer.clear();
            proof {
                vstd::arithmetic::div_mod::lemma_mod_add_multiples_vanish(fl, 64);
                assert((cur2.len() as int) % 64 == 0);
                assert(cur2.skip(cur2.len() as int) =~= Seq::<u8>::empty());
                assert(cur2.take(cur2.len() as int) =~= cur2);
            }
        }
        i += 1;
    }
    proof {
        assert(input@.take(input@.len() as int) =~= input@);
        let all = old(buffer)@ + input@;
        stream::lemma_block_remainder(all.len() as int, buffer@.len() as int);
    }
}

/// A streaming MD5 digest: accepts input in chunks of any size through
/// [`Md5::update`], and is consumed by [`Md5::finalize`], which returns the
/// 16-byte digest of everything fed so far.  Taking the instance by value
/// at finalize makes use after finalization a compile-time impossibility.
///
/// The view of an instance is the byte stream it has been fed.
pub struct Md5 {
    state: [u32; 4],
    buffer: Vec<u8>,
    length_bytes: u64,
    message: Ghost<Seq<u8>>,
}

impl View for Md5 {
    type V = Seq<u8>;

    closed spec fn view(&self) -> Seq<u8> {
        self.message@
    }
}

impl Md5 {
    /// Well-formedness: the buffer holds the tail of the stream short of a
    /// whole block, the state has absorbed every whole block before it, and
    /// the byte count is the stream length modulo 2^64.
    pub closed spec fn wf(self) -> bool {
        let l = self.message@.len() as int;
        let bl = self.buffer@.len() as int;
        &&& bl < 64
        &&& bl <= l
        &&& (l - bl) % 64 == 0
        &&& self.buffer@ == self.message@.skip(l - bl)
        &&& self.state@ == stream::process_blocks(
            stream::init_state(),
            self.message@.take(l - bl),
        )
        &&& self.length_bytes == self.message@.len() % 0x1_0000_0000_0000_0000
    }

    /// A fresh digest in its initial state, no bytes fed yet.
    pub fn new() -> (r: Md5)
        ensures
            r.wf(),
            r@ == Seq::<u8>::empty(),
    {
        let r = Md5 {
            state: compress::MD5_IV,
            buffer: Vec::new(),
            length_bytes: 0,
            message: Ghost(Seq::empty()),
        };
        proof {
            assert(r.message@.take(0) =~= Seq::<u8>::empty());
            assert(r.message@.skip(0) =~= Seq::<u8>::empty());
        }
        r
    }

    /// Appends `input` to the stream being digested.  Any chunking of the
    /// same overall bytes leaves the instance in the same abstract state,
    /// since the stream model only ever grows by exactly `input`.
    pub fn update(&mut self, input: &[u8])
        requires
            old(self).wf(),
        ensures
            final(self).wf(),
            final(self)@ == old(self)@ + input@,
    {
        let ghost om = self.message@;
        let ghost ob = self.buffer@;
        absorb(&mut self.state, &mut self.buffer, input);
        self.length_bytes = self.length_bytes.wrapping_add(input.len() as u64);
        self.message = Ghost(self.message@ + input@);
        proof {
            stream::lemma_stream_extend(stream::init_state(), om, ob, input@);
            vstd::arithmetic::div_mod::lemma_add_mod_noop(
                om.len() as int,
                input@.len() as int,
                0x1_0000_0000_0000_0000,
            );
            vstd::arithmetic::div_mod::lemma_small_mod(
                input@.len(),
                0x1_0000_0000_0000_0000,
            );
        }
    }

    /// Consumes the digest and returns the 16-byte MD5 of everything fed:
    /// the stream is closed with one 0x80 byte, zero bytes up to 56 modulo
    /// 64, and the bit length modulo 2^64, and the final state is
    /// serialized little-endian.
    pub fn finalize(self) -> (r: [u8; 16])
        requires
            self.wf(),
        ensures
            r@ == stream::md5_spec(self@),
    {
        let ghost m = self@;
        let mut this = self;
        proof {
            stream::lemma_block_remainder(m.len() as int, this.buffer@.len() as int);
        }
        let blen = this.buffer.len();
        let mut tail: Vec<u8> = Vec::new();
        tail.push(0x80);
        let zeros: usize = if blen < 56 {
            55 - blen
        } else {
            119 - blen
        };
        proof {
            if blen < 56 {
                vstd::arithmetic::div_mod::lemma_mod_add_multiples_vanish(
                    55 - blen as int,
                    64,
                );
                vstd::arithmetic::div_mod::lemma_small_mod((55 - blen) as nat, 64);
            } else {
                vstd::arithmetic::div_mod::lemma_small_mod((119 - blen) as nat, 64);
            }
            assert(zeros == stream::zero_pad_len(m.len()));
        }
        let mut z: usize = 0;
        while z < zeros
            invariant
                z <= zeros,
                tail@.len() == 1 + z,
                tail@[0] == 0x80u8,
                forall|x: int| 1 <= x < tail@.len() ==> tail@[x] == 0u8,
            decreases zeros - z,
        {
            tail.push(0u8);
            z += 1;
        }
        let lenb = bytes::encode_bit_length(this.length_bytes);
        tail.push(lenb[0]);
        tail.push(lenb[1]);
        tail.push(lenb[2]);
        tail.push(lenb[3]);
        tail.push(lenb[4]);
        tail.push(lenb[5]);
        tail.push(lenb[6]);
        tail.push(lenb[7]);
        proof {
            vstd::arithmetic::div_mod::lemma_mul_mod_noop_left(
                m.len() as int,
                8,
                0x1_0000_0000_0000_0000,
            );
            assert(tail@ =~= stream::pad_tail(m.len()));
        }
        let ghost ob = this.buffer@;
        let ghost pfl = (m.len() - ob.len()) as int;
        absorb(&mut this.state, &mut this.buffer, tail.as_slice());
        proof {
            let all = ob + tail@;
            assert(all.len() == 64 || all.len() == 128);
            assert(all.len() % 64 == 0);
            assert(all.take(all.len() as int) =~= all);
            stream::lemma_process_blocks_concat(stream::init_state(), m.take(pfl), all);
            assert(m.take(pfl) + all =~= stream::md5_padded(m));
            assert(this.state@ == stream::process_blocks(
                stream::init_state(),
                stream::md5_padded(m),
            ));
        }
        let b0 = bytes::u32_to_le_bytes(this.state[0]);
        let b1 = bytes::u32_to_le_bytes(this.state[1]);
        let b2 = bytes::u32_to_le_bytes(this.state[2]);
        let b3 = bytes::u32_to_le_bytes(this.state[3]);
        let out: [u8; 16] = [
            b0[0], b0[1], b0[2], b0[3],
            b1[0], b1[1], b1[2], b1[3],
            b2[0], b2[1], b2[2], b2[3],
            b3[0], b3[1], b3[2], b3[3],
        ];
        proof {
            assert(out@ =~= stream::md5_spec(m));
        }
        out
    }
}

impl Clone for Md5 {
    /// An independent copy: the same stream fed so far, and the same
    /// well-formedness, so both copies may go on and digest independently.
    fn clone(&self) -> (r: Self)
        ensures
            r@ == self@,
            self.wf() ==> r.wf(),
    {
        let r = Md5 {
            state: self.state,
            buffer: self.buffer.clone(),
            length_bytes: self.length_bytes,
            message: self.message,
        };
        proof {
            assert(r.buffer@ =~= self.buffer@);
        }
        r
    }
}

impl Default for Md5 {
    /// Same as [`Md5::new`]: a fresh digest with nothing fed.
    fn default() -> (r: Md5)
        ensures
            r.wf(),
            r@ == Seq::<u8>::empty(),
    {
        Md5::new()
    }
}

} // verus!
