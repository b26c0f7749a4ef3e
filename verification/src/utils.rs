//! Big-endian 48-bit field access and hex digit helpers.

use vstd::prelude::*;

verus! {

/// The 48-bit value held big-endian in a 6-byte sequence.
pub open spec fn be48_of(t: Seq<u8>) -> u64
    recommends
        t.len() == 6,
{
    ((t[0] as u64) << 40) | ((t[1] as u64) << 32) | ((t[2] as u64) << 24) | ((t[3] as u64) << 16)
        | ((t[4] as u64) << 8) | (t[5] as u64)
}

/// The 6-byte big-endian encoding of the low 48 bits of a value.
pub open spec fn be48_bytes(v: u64) -> Seq<u8> {
    seq![
        ((v >> 40) & 0xFF) as u8,
        ((v >> 32) & 0xFF) as u8,
        ((v >> 24) & 0xFF) as u8,
        ((v >> 16) & 0xFF) as u8,
        ((v >> 8) & 0xFF) as u8,
        (v & 0xFF) as u8,
    ]
}

/// Reading six bytes written big-endian recovers the low 48 bits.
pub proof fn lemma_be48_read_write(v: u64)
    ensures
        be48_of(be48_bytes(v)) == v & 0xFFFF_FFFF_FFFF,
{
    assert(((((v >> 40) & 0xFF) as u8 as u64) << 40) | ((((v >> 32) & 0xFF) as u8 as u64) << 32)
        | ((((v >> 24) & 0xFF) as u8 as u64) << 24) | ((((v >> 16) & 0xFF) as u8 as u64) << 16)
        | ((((v >> 8) & 0xFF) as u8 as u64) << 8) | ((v & 0xFF) as u8 as u64) == v
        & 0xFFFF_FFFF_FFFF) by (bit_vector);
}

/// Writing back the 48-bit value read from six bytes reproduces those bytes.
pub proof fn lemma_be48_write_read(t: Seq<u8>)
    requires
        t.len() == 6,
    ensures
        be48_bytes(be48_of(t)) =~= t,
{
    let b0 = t[0];
    let b1 = t[1];
    let b2 = t[2];
    let b3 = t[3];
    let b4 = t[4];
    let b5 = t[5];
    let v = be48_of(t);
    assert({
        let v = ((b0 as u64) << 40) | ((b1 as u64) << 32) | ((b2 as u64) << 24) | ((b3 as u64)
            << 16) | ((b4 as u64) << 8) | (b5 as u64);
        &&& ((v >> 40) & 0xFF) as u8 == b0
        &&& ((v >> 32) & 0xFF) as u8 == b1
        &&& ((v >> 24) & 0xFF) as u8 == b2
        &&& ((v >> 16) & 0xFF) as u8 == b3
        &&& ((v >> 8) & 0xFF) as u8 == b4
        &&& (v & 0xFF) as u8 == b5
    }) by (bit_vector);
}

/// A value read big-endian from six bytes fits in 48 bits.
pub proof fn lemma_be48_bound(t: Seq<u8>)
    requires
        t.len() == 6,
    ensures
        be48_of(t) < 0x1_0000_0000_0000,
{
    let b0 = t[0];
    let b1 = t[1];
    let b2 = t[2];
    let b3 = t[3];
    let b4 = t[4];
    let b5 = t[5];
    assert(((b0 as u64) << 40) | ((b1 as u64) << 32) | ((b2 as u64) << 24) | ((b3 as u64) << 16) | (
    (b4 as u64) << 8) | (b5 as u64) < 0x1_0000_0000_0000) by (bit_vector);
}

/// Writes the low 48 bits of `v48` into `dst`, most significant byte first.
pub fn write_48_big_endian(dst: &mut [u8; 6], v48: u64)
    ensures
        final(dst)@ =~= be48_bytes(v48),
{
    dst[0] = ((v48 >> 40) & 0xFF) as u8;
    dst[1] = ((v48 >> 32) & 0xFF) as u8;
    dst[2] = ((v48 >> 24) & 0xFF) as u8;
    dst[3] = ((v48 >> 16) & 0xFF) as u8;
    dst[4] = ((v48 >> 8) & 0xFF) as u8;
    dst[5] = (v48 & 0xFF) as u8;
}

/// Reads a 48-bit value from six bytes, most significant byte first.
pub fn read_48_big_endian(src: [u8; 6]) -> (r: u64)
    ensures
        r == be48_of(src@),
        r < 0x1_0000_0000_0000,
{
    proof {
        lemma_be48_bound(src@);
    }
    ((src[0] as u64) << 40) | ((src[1] as u64) << 32) | ((src[2] as u64) << 24) | ((src[3] as u64)
        << 16) | ((src[4] as u64) << 8) | (src[5] as u64)
}

/// Whether a byte is an ASCII hex digit (either case).
pub open spec fn is_hex_byte(c: u8) -> bool {
    (0x30 <= c <= 0x39) || (0x61 <= c <= 0x66) || (0x41 <= c <= 0x46)
}

/// The numeric value of an ASCII hex digit.
pub open spec fn hex_val(c: u8) -> u8
    recommends
        is_hex_byte(c),
{
    if 0x30 <= c <= 0x39 {
        (c - 0x30) as u8
    } else if 0x61 <= c <= 0x66 {
        (c - 0x61 + 10) as u8
    } else {
        (c - 0x41 + 10) as u8
    }
}

/// The lowercase ASCII hex digit for a value below 16.
pub open spec fn hex_lower(n: u8) -> u8
    recommends
        n < 16,
{
    if n < 10 {
        (0x30 + n) as u8
    } else {
        (0x61 + n - 10) as u8
    }
}

/// Decodes one ASCII hex digit, in either case; `None` on any other byte.
pub fn hexval(c: u8) -> (r: Option<u8>)
    ensures
        is_hex_byte(c) ==> r == Some(hex_val(c)),
        !is_hex_byte(c) ==> r is None,
        r is Some ==> r.unwrap() < 16,
{
    if 0x30 <= c && c <= 0x39 {
        Some(c - 0x30)
    } else if 0x61 <= c && c <= 0x66 {
        Some(c - 0x61 + 10)
    } else if 0x41 <= c && c <= 0x46 {
        Some(c - 0x41 + 10)
    } else {
        None
    }
}

} // verus!
