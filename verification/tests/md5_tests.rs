use md5::Md5;
use md5::encode_bit_length;

fn hex16(s: &str) -> [u8; 16] {
    let b = s.as_bytes();
    assert_eq!(b.len(), 32);
    let mut out = [0u8; 16];
    for i in 0..16 {
        let hi = (b[2 * i] as char).to_digit(16).unwrap() as u8;
        let lo = (b[2 * i + 1] as char).to_digit(16).unwrap() as u8;
        out[i] = hi * 16 + lo;
    }
    out
}

fn digest_of(data: &[u8]) -> [u8; 16] {
    let mut h = Md5::new();
    h.update(data);
    h.finalize()
}

#[test]
fn empty_input_digest() {
    assert_eq!(digest_of(b""), hex16("d41d8cd98f00b204e9800998ecf8427e"));
}

#[test]
fn abc_digest() {
    assert_eq!(digest_of(b"abc"), hex16("900150983cd24fb0d6963f7d28e17f72"));
}

#[test]
fn single_byte_digest() {
    assert_eq!(digest_of(b"a"), hex16("0cc175b9c0f1b6a831c399e269772661"));
}

#[test]
fn message_digest_vector() {
    assert_eq!(
        digest_of(b"message digest"),
        hex16("f96b697d7cb7938d525a2f31aaf161d0")
    );
}

#[test]
fn alphabet_vector() {
    assert_eq!(
        digest_of(b"abcdefghijklmnopqrstuvwxyz"),
        hex16("c3fcd3d76192e4007dfb496cca67e13b")
    );
}

#[test]
fn alphanumeric_vector() {
    assert_eq!(
        digest_of(b"ABCDEFGHIJKLMNOPQRSTUVWXYZabcdefghijklmnopqrstuvwxyz0123456789"),
        hex16("d174ab98d277d9f5a5611c2c9f419d9f")
    );
}

#[test]
fn eighty_digits_vector() {
    assert_eq!(
        digest_of(
            b"12345678901234567890123456789012345678901234567890123456789012345678901234567890"
        ),
        hex16("57edf4a22be3c955ac49da2e2107b67a")
    );
}

#[test]
fn padding_boundary_56_vs_64() {
    let d56 = digest_of(&vec![b'a'; 56]);
    let d64 = digest_of(&vec![b'a'; 64]);
    assert_ne!(d56, d64);
}

#[test]
fn chunking_invariance() {
    let data = b"abcdefghijklmnopqrstuvwxyz";
    let whole = digest_of(data);

    let mut one_by_one = Md5::new();
    for byte in data.iter() {
        one_by_one.update(std::slice::from_ref(byte));
    }
    assert_eq!(one_by_one.finalize(), whole);

    let mut by_fives = Md5::new();
    for chunk in data.chunks(5) {
        by_fives.update(chunk);
    }
    assert_eq!(by_fives.finalize(), whole);

    assert_eq!(whole, hex16("c3fcd3d76192e4007dfb496cca67e13b"));
}

#[test]
fn chunking_across_block_boundary() {
    let data = vec![0xabu8; 200];
    let whole = digest_of(&data);

    let mut split = Md5::new();
    split.update(&data[..63]);
    split.update(&data[63..64]);
    split.update(&data[64..130]);
    split.update(&data[130..]);
    assert_eq!(split.finalize(), whole);
}

#[test]
fn empty_updates_change_nothing() {
    let mut h = Md5::new();
    h.update(b"");
    h.update(b"ab");
    h.update(b"");
    h.update(b"c");
    h.update(b"");
    assert_eq!(h.finalize(), hex16("900150983cd24fb0d6963f7d28e17f72"));
}

#[test]
fn default_is_fresh() {
    let mut h = Md5::default();
    h.update(b"abc");
    assert_eq!(h.finalize(), hex16("900150983cd24fb0d6963f7d28e17f72"));
}

#[test]
fn clone_forks_the_stream() {
    let mut h = Md5::new();
    h.update(b"abc");
    let mut forked = h.clone();
    assert_eq!(h.finalize(), hex16("900150983cd24fb0d6963f7d28e17f72"));
    forked.update(b"defghijklmnopqrstuvwxyz");
    assert_eq!(
        forked.finalize(),
        hex16("c3fcd3d76192e4007dfb496cca67e13b")
    );
}

#[test]
fn bit_length_encoding_small() {
    // 7 bytes is 56 bits: 0x38 little-endian.
    assert_eq!(encode_bit_length(7), [0x38, 0, 0, 0, 0, 0, 0, 0]);
}

#[test]
fn bit_length_encoding_wraps_at_max() {
    // (2^64 - 1) * 8 modulo 2^64 is 2^64 - 8.
    assert_eq!(
        encode_bit_length(u64::MAX),
        [0xf8, 0xff, 0xff, 0xff, 0xff, 0xff, 0xff, 0xff]
    );
}

#[test]
fn bit_length_encoding_wraps_past_2_64_bits() {
    // 2^61 + 1 bytes is 2^64 + 8 bits, which must encode as 8, not saturate.
    assert_eq!(
        encode_bit_length(0x2000_0000_0000_0001),
        [8, 0, 0, 0, 0, 0, 0, 0]
    );
}
