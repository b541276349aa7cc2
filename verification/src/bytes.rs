//! Little-endian conversions between words and byte sequences.
//!
//! MD5 reads its message blocks and writes its digest little-endian; these
//! spec functions fix that layout once, and the executable functions are
//! proved to match it.

use vstd::prelude::*;

verus! {

/// The little-endian bytes of a 32-bit word, least significant first.
pub open spec fn u32_le_bytes(x: u32) -> Seq<u8> {
    seq![
        (x & 0xff) as u8,
        ((x >> 8) & 0xff) as u8,
        ((x >> 16) & 0xff) as u8,
        ((x >> 24) & 0xff) as u8,
    ]
}

/// The little-endian bytes of a 64-bit word, least significant first.
pub open spec fn u64_le_bytes(x: u64) -> Seq<u8> {
    seq![
        (x & 0xff) as u8,
        ((x >> 8) & 0xff) as u8,
        ((x >> 16) & 0xff) as u8,
        ((x >> 24) & 0xff) as u8,
        ((x >> 32) & 0xff) as u8,
        ((x >> 40) & 0xff) as u8,
        ((x >> 48) & 0xff) as u8,
        ((x >> 56) & 0xff) as u8,
    ]
}

/// The `j`-th 32-bit word of a byte sequence, read little-endian.
pub open spec fn word_le_at(bytes: Seq<u8>, j: int) -> u32
    recommends
        0 <= j,
        4 * j + 4 <= bytes.len(),
{
    (bytes[4 * j] as u32) | ((bytes[4 * j + 1] as u32) << 8) | ((bytes[4 * j + 2] as u32) << 16)
        | ((bytes[4 * j + 3] as u32) << 24)
}

/// Serializes one state word little-endian, as the digest output does.
pub fn u32_to_le_bytes(x: u32) -> (r: [u8; 4])
    ensures
        r@ == u32_le_bytes(x),
{
    let r: [u8; 4] = [
        (x & 0xff) as u8,
        ((x >> 8) & 0xff) as u8,
        ((x >> 16) & 0xff) as u8,
        ((x >> 24) & 0xff) as u8,
    ];
    proof {
        assert(r@ =~= u32_le_bytes(x));
    }
    r
}

/// Encodes a running byte count as MD5's trailing length field: the bit
/// count, reduced modulo 2^64, as 8 little-endian bytes.  Wraparound is the
/// specified behaviour, not an error: MD5 defines the length field modulo
/// 2^64.
pub fn encode_bit_length(length_bytes: u64) -> (r: [u8; 8])
    ensures
        r@ == u64_le_bytes(((length_bytes * 8) % 0x1_0000_0000_0000_0000) as u64),
{
    let bits = length_bytes.wrapping_mul(8);
    proof {
        assert(bits == ((length_bytes * 8) % 0x1_0000_0000_0000_0000) as u64);
    }
    let r: [u8; 8] = [
        (bits & 0xff) as u8,
        ((bits >> 8) & 0xff) as u8,
        ((bits >> 16) & 0xff) as u8,
        ((bits >> 24) & 0xff) as u8,
        ((bits >> 32) & 0xff) as u8,
        ((bits >> 40) & 0xff) as u8,
        ((bits >> 48) & 0xff) as u8,
        ((bits >> 56) & 0xff) as u8,
    ];
    proof {
        assert(r@ =~= u64_le_bytes(bits));
    }
    r
}

} // verus!
