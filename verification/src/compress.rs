//! The MD5 compression function: one application of the 64-step round
//! transformation, folding a 64-byte block into the 4-word running state.
//!
//! The mathematical statement is `compress_spec`; the executable `compress`
//! is proved to implement it step for step.  All arithmetic is modulo 2^32,
//! which MD5 relies on.

use vstd::prelude::*;

use crate::bytes::word_le_at;
use crate::sum32;

verus! {

/// Wrapping 32-bit addition, related to its mathematical statement.
fn wadd(x: u32, y: u32) -> (r: u32)
    ensures
        r == sum32(x + y),
{
    x.wrapping_add(y)
}

/// The four initial state words of MD5 (RFC 1321, section 3.3),
/// little-endian words of 01 23 45 67 / 89 ab cd ef / fe dc ba 98 / 76 54 32 10.
pub const MD5_IV: [u32; 4] = [0x67452301, 0xefcdab89, 0x98badcfe, 0x10325476];

/// The 64 additive round constants of MD5 (RFC 1321: the integer parts of
/// 4294967296 * abs(sin(i+1)); the standard published table, stored as
/// such so that no arithmetic regenerates it).
pub const MD5_K: [u32; 64] = [
    0xd76aa478, 0xe8c7b756, 0x242070db, 0xc1bdceee,
    0xf57c0faf, 0x4787c62a, 0xa8304613, 0xfd469501,
    0x698098d8, 0x8b44f7af, 0xffff5bb1, 0x895cd7be,
    0x6b901122, 0xfd987193, 0xa679438e, 0x49b40821,
    0xf61e2562, 0xc040b340, 0x265e5a51, 0xe9b6c7aa,
    0xd62f105d, 0x02441453, 0xd8a1e681, 0xe7d3fbc8,
    0x21e1cde6, 0xc33707d6, 0xf4d50d87, 0x455a14ed,
    0xa9e3e905, 0xfcefa3f8, 0x676f02d9, 0x8d2a4c8a,
    0xfffa3942, 0x8771f681, 0x6d9d6122, 0xfde5380c,
    0xa4beea44, 0x4bdecfa9, 0xf6bb4b60, 0xbebfbc70,
    0x289b7ec6, 0xeaa127fa, 0xd4ef3085, 0x04881d05,
    0xd9d4d039, 0xe6db99e5, 0x1fa27cf8, 0xc4ac5665,
    0xf4292244, 0x432aff97, 0xab9423a7, 0xfc93a039,
    0x655b59c3, 0x8f0ccc92, 0xffeff47d, 0x85845dd1,
    0x6fa87e4f, 0xfe2ce6e0, 0xa3014314, 0x4e0811a1,
    0xf7537e82, 0xbd3af235, 0x2ad7d2bb, 0xeb86d391,
];

/// The per-step round function: F, G, H, I for rounds 1 to 4.
pub open spec fn round_fn(i: int, b: u32, c: u32, d: u32) -> u32 {
    if i < 16 {
        (b & c) | (!b & d)
    } else if i < 32 {
        (b & d) | (c & !d)
    } else if i < 48 {
        b ^ c ^ d
    } else {
        c ^ (b | !d)
    }
}

/// The message-word index used at step `i`: MD5's fixed permutation per round.
pub open spec fn msg_index(i: int) -> int {
    if i < 16 {
        i
    } else if i < 32 {
        (5 * i + 1) % 16
    } else if i < 48 {
        (3 * i + 5) % 16
    } else {
        (7 * i) % 16
    }
}

/// The left-rotation amount used at step `i`: four values per round,
/// cycling every four steps.
pub open spec fn shift_amount(i: int) -> u32 {
    let j = i % 4;
    if i < 16 {
        if j == 0 { 7 } else if j == 1 { 12 } else if j == 2 { 17 } else { 22 }
    } else if i < 32 {
        if j == 0 { 5 } else if j == 1 { 9 } else if j == 2 { 14 } else { 20 }
    } else if i < 48 {
        if j == 0 { 4 } else if j == 1 { 11 } else if j == 2 { 16 } else { 23 }
    } else {
        if j == 0 { 6 } else if j == 1 { 10 } else if j == 2 { 15 } else { 21 }
    }
}

/// Left rotation of a 32-bit word; every MD5 shift amount lies in 1..=31.
pub open spec fn rotl32(x: u32, s: u32) -> u32
    recommends
        0 < s < 32,
{
    (x << s) | (x >> ((32 - s) as u32))
}

/// One MD5 step: `(a, b, c, d)` becomes
/// `(d, b + rotl(a + f + m + k, s), b, c)` modulo 2^32.
pub open spec fn md5_step(i: int, v: (u32, u32, u32, u32), m: Seq<u32>) -> (u32, u32, u32, u32)
    recommends
        0 <= i < 64,
        m.len() == 16,
{
    let t = sum32(v.0 + round_fn(i, v.1, v.2, v.3) + m[msg_index(i)] + MD5_K@[i]);
    (v.3, sum32(v.1 + rotl32(t, shift_amount(i))), v.1, v.2)
}

/// The working variables after the first `n` of the 64 steps.
pub open spec fn md5_rounds(v: (u32, u32, u32, u32), m: Seq<u32>, n: int) -> (u32, u32, u32, u32)
    recommends
        0 <= n <= 64,
        m.len() == 16,
    decreases n,
{
    if n <= 0 {
        v
    } else {
        md5_step(n - 1, md5_rounds(v, m, n - 1), m)
    }
}

/// The 16 message words of a 64-byte block, decoded little-endian.
pub open spec fn block_words(block: Seq<u8>) -> Seq<u32>
    recommends
        block.len() == 64,
{
    Seq::new(16, |j: int| word_le_at(block, j))
}

/// What one compression does to the state: run the 64 steps on the decoded
/// block, then add the result back into the incoming state, modulo 2^32.
pub open spec fn compress_spec(s: Seq<u32>, block: Seq<u8>) -> Seq<u32>
    recommends
        s.len() == 4,
        block.len() == 64,
{
    let v = md5_rounds((s[0], s[1], s[2], s[3]), block_words(block), 64);
    seq![sum32(s[0] + v.0), sum32(s[1] + v.1), sum32(s[2] + v.2), sum32(s[3] + v.3)]
}

/// The rotation amount for step `i`, as executable code.
fn shift_value(i: usize) -> (r: u32)
    requires
        i < 64,
    ensures
        r == shift_amount(i as int),
        0 < r < 32,
{
    let j = i % 4;
    if i < 16 {
        if j == 0 { 7 } else if j == 1 { 12 } else if j == 2 { 17 } else { 22 }
    } else if i < 32 {
        if j == 0 { 5 } else if j == 1 { 9 } else if j == 2 { 14 } else { 20 }
    } else if i < 48 {
        if j == 0 { 4 } else if j == 1 { 11 } else if j == 2 { 16 } else { 23 }
    } else {
        if j == 0 { 6 } else if j == 1 { 10 } else if j == 2 { 15 } else { 21 }
    }
}

/// Left rotation, as executable code.
fn rotl(x: u32, s: u32) -> (r: u32)
    requires
        0 < s < 32,
    ensures
        r == rotl32(x, s),
{
    (x << s) | (x >> (32 - s))
}

/// Reduction of a three-fold wrapping sum to a single sum modulo 2^32.
proof fn lemma_sum32_absorb(x: int, y: u32)
    requires
        x >= 0,
    ensures
        sum32(sum32(x) + y) == sum32(x + y),
{
    vstd::arithmetic::div_mod::lemma_add_mod_noop(x, y as int, 0x1_0000_0000);
    vstd::arithmetic::div_mod::lemma_small_mod(y as nat, 0x1_0000_0000);
}

/// One MD5 compression: folds the 64-byte block at `block` into `state`.
/// Total on its domain: any state and any 64-byte block are valid.
pub fn compress(state: &mut [u32; 4], block: &[u8])
    requires
        block@.len() == 64,
    ensures
        final(state)@ == compress_spec(old(state)@, block@),
{
    let mut m: Vec<u32> = Vec::new();
    let mut j: usize = 0;
    while j < 16
        invariant
            j <= 16,
            block@.len() == 64,
            m@.len() == j,
            forall|x: int| 0 <= x < j ==> m@[x] == word_le_at(block@, x),
        decreases 16 - j,
    {
        let w = (block[4 * j] as u32) | ((block[4 * j + 1] as u32) << 8u32)
            | ((block[4 * j + 2] as u32) << 16u32) | ((block[4 * j + 3] as u32) << 24u32);
        m.push(w);
        j += 1;
    }
    proof {
        assert(m@ =~= block_words(block@));
    }

    let mut a = state[0];
    let mut b = state[1];
    let mut c = state[2];
    let mut d = state[3];
    let ghost v0 = (a, b, c, d);

    let mut i: usize = 0;
    while i < 64
        invariant
            i <= 64,
            m@ == block_words(block@),
            m@.len() == 16,
            v0 == (old(state)@[0], old(state)@[1], old(state)@[2], old(state)@[3]),
            (a, b, c, d) == md5_rounds(v0, m@, i as int),
        decreases 64 - i,
    {
        let f: u32 = if i < 16 {
            (b & c) | (!b & d)
        } else if i < 32 {
            (b & d) | (c & !d)
        } else if i < 48 {
            b ^ c ^ d
        } else {
            c ^ (b | !d)
        };
        let idx: usize = if i < 16 {
            i
        } else if i < 32 {
            (5 * i + 1) % 16
        } else if i < 48 {
            (3 * i + 5) % 16
        } else {
            (7 * i) % 16
        };
        proof {
            assert(idx == msg_index(i as int));
            assert(0 <= msg_index(i as int) < 16);
        }
        let k = MD5_K[i];
        let s = shift_value(i);
        let t = wadd(wadd(wadd(a, f), m[idx]), k);
        proof {
            lemma_sum32_absorb(a + f, m@[idx as int]);
            lemma_sum32_absorb(a + f + m@[idx as int], k);
            assert(t == sum32(
                a + round_fn(i as int, b, c, d) + m@[msg_index(i as int)] + MD5_K@[i as int],
            ));
        }
        let nb = wadd(b, rotl(t, s));
        proof {
            assert((d, nb, b, c) == md5_step(i as int, (a, b, c, d), m@));
            assert((d, nb, b, c) == md5_rounds(v0, m@, i as int + 1));
        }
        let prev_b = b;
        let prev_c = c;
        a = d;
        b = nb;
        c = prev_b;
        d = prev_c;
        i += 1;
    }

    let ns: [u32; 4] = [wadd(state[0], a), wadd(state[1], b), wadd(state[2], c), wadd(state[3], d)];
    proof {
        assert(ns@ =~= compress_spec(old(state)@, block@));
    }
    *state = ns;
}

} // verus!
