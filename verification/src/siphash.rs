//! A SipHash-2-4 compatible keyed pseudorandom function.
//!
//! The digest must match the reference construction bit for bit: the facade
//! transform recomputes it on both the encode and the decode side, and any
//! other implementation that knows only the key must agree with it.

use vstd::prelude::*;

verus! {

/// The four 64-bit lanes of the mixing state.
#[derive(Debug, Clone, Copy)]
pub struct SipState {
    /// Lane 0.
    pub v0: u64,
    /// Lane 1.
    pub v1: u64,
    /// Lane 2.
    pub v2: u64,
    /// Lane 3.
    pub v3: u64,
}

/// Addition modulo `2^64`.
pub open spec fn wadd(x: u64, y: u64) -> u64 {
    vstd::wrapping::u64_specs::wrapping_add(x, y)
}

/// Left rotation of a 64-bit word by `n` bits.
pub open spec fn rotl(x: u64, n: u64) -> u64
    recommends
        0 < n < 64,
{
    (x << n) | (x >> ((64 - n) as u64))
}

/// One round of the add-rotate-xor cross-mixing permutation.
pub open spec fn sip_round(s: SipState) -> SipState {
    let v0a = wadd(s.v0, s.v1);
    let v2a = wadd(s.v2, s.v3);
    let v1a = rotl(s.v1, 13) ^ v0a;
    let v3a = rotl(s.v3, 16) ^ v2a;
    let v0b = rotl(v0a, 32);
    let v2b = wadd(v2a, v1a);
    let v0c = wadd(v0b, v3a);
    let v1b = rotl(v1a, 17) ^ v2b;
    let v3b = rotl(v3a, 21) ^ v0c;
    let v2c = rotl(v2b, 32);
    SipState { v0: v0c, v1: v1b, v2: v2c, v3: v3b }
}

/// The permutation iterated `n` times.
pub open spec fn sip_rounds(s: SipState, n: nat) -> SipState
    decreases n,
{
    if n == 0 {
        s
    } else {
        sip_round(sip_rounds(s, (n - 1) as nat))
    }
}

/// The initial lanes: fixed constants XORed with the key words.
pub open spec fn sip_init(k0: u64, k1: u64) -> SipState {
    SipState {
        v0: 0x736f_6d65_7073_6575 ^ k0,
        v1: 0x646f_7261_6e64_6f6d ^ k1,
        v2: 0x6c79_6765_6e65_7261 ^ k0,
        v3: 0x7465_6462_7974_6573 ^ k1,
    }
}

/// Absorbing one 64-bit block: XOR into lane 3, two rounds, XOR into lane 0.
pub open spec fn sip_compress(s: SipState, m: u64) -> SipState {
    let t = sip_rounds(SipState { v3: s.v3 ^ m, ..s }, 2);
    SipState { v0: t.v0 ^ m, ..t }
}

/// The 64-bit word read little-endian from a full 8-byte block at `base`.
pub open spec fn le64_at(msg: Seq<u8>, base: int) -> u64
    recommends
        0 <= base,
        base + 8 <= msg.len(),
{
    (msg[base] as u64) | ((msg[base + 1] as u64) << 8) | ((msg[base + 2] as u64) << 16) | ((msg[base
        + 3] as u64) << 24) | ((msg[base + 4] as u64) << 32) | ((msg[base + 5] as u64) << 40) | ((
    msg[base + 6] as u64) << 48) | ((msg[base + 7] as u64) << 56)
}

/// The word formed little-endian from up to eight trailing bytes.
pub open spec fn le_word(t: Seq<u8>) -> u64
    recommends
        t.len() <= 8,
    decreases t.len(),
{
    if t.len() == 0 {
        0
    } else {
        le_word(t.drop_last()) | ((t.last() as u64) << ((8 * (t.len() - 1)) as u64))
    }
}

/// The state after absorbing the first `i` full 8-byte blocks of the message.
pub open spec fn sip_state_after(msg: Seq<u8>, k0: u64, k1: u64, i: nat) -> SipState
    recommends
        8 * i <= msg.len(),
    decreases i,
{
    if i == 0 {
        sip_init(k0, k1)
    } else {
        sip_compress(sip_state_after(msg, k0, k1, (i - 1) as nat), le64_at(msg, 8 * (i - 1)))
    }
}

/// The final block: the 0 to 7 trailing bytes little-endian, with the
/// message length modulo 256 in the most significant byte.
pub open spec fn sip_tail_word(msg: Seq<u8>) -> u64 {
    (((msg.len() % 256) as u64) << 56) | le_word(
        msg.subrange((msg.len() - (msg.len() % 8)) as int, msg.len() as int),
    )
}

/// The SipHash-2-4 digest of a message under the key `(k0, k1)`.
pub open spec fn siphash24_of(msg: Seq<u8>, k0: u64, k1: u64) -> u64 {
    let s1 = sip_state_after(msg, k0, k1, msg.len() / 8);
    let s2 = sip_compress(s1, sip_tail_word(msg));
    let s3 = sip_rounds(SipState { v2: s2.v2 ^ 0xff, ..s2 }, 4);
    s3.v0 ^ s3.v1 ^ s3.v2 ^ s3.v3
}

fn sip_round_exec(s: SipState) -> (r: SipState)
    ensures
        r == sip_round(s),
{
    let v0a = s.v0.wrapping_add(s.v1);
    let v2a = s.v2.wrapping_add(s.v3);
    let v1a = ((s.v1 << 13) | (s.v1 >> 51)) ^ v0a;
    let v3a = ((s.v3 << 16) | (s.v3 >> 48)) ^ v2a;
    let v0b = (v0a << 32) | (v0a >> 32);
    let v2b = v2a.wrapping_add(v1a);
    let v0c = v0b.wrapping_add(v3a);
    let v1b = ((v1a << 17) | (v1a >> 47)) ^ v2b;
    let v3b = ((v3a << 21) | (v3a >> 43)) ^ v0c;
    let v2c = (v2b << 32) | (v2b >> 32);
    SipState { v0: v0c, v1: v1b, v2: v2c, v3: v3b }
}

fn sip_compress_exec(st: SipState, m: u64) -> (r: SipState)
    ensures
        r == sip_compress(st, m),
{
    let mut s = st;
    s.v3 = s.v3 ^ m;
    let ghost sx = s;
    s = sip_round_exec(s);
    assert(sip_rounds(sx, 0) == sx);
    assert(s == sip_rounds(sx, 1));
    s = sip_round_exec(s);
    assert(s == sip_rounds(sx, 2));
    s.v0 = s.v0 ^ m;
    s
}

/// The SipHash-2-4 digest of `input` under the key `(k0, k1)`.
///
/// Deterministic, with no failure mode, for any message length.
pub fn siphash24(input: &[u8], k0: u64, k1: u64) -> (r: u64)
    ensures
        r == siphash24_of(input@, k0, k1),
{
    let len = input.len();
    let nb = len / 8;
    let rem = len % 8;
    let base = len - rem;
    let mut st = SipState {
        v0: 0x736f_6d65_7073_6575 ^ k0,
        v1: 0x646f_7261_6e64_6f6d ^ k1,
        v2: 0x6c79_6765_6e65_7261 ^ k0,
        v3: 0x7465_6462_7974_6573 ^ k1,
    };
    assert(st == sip_state_after(input@, k0, k1, 0));
    let mut i: usize = 0;
    while i < nb
        invariant
            nb == input@.len() / 8,
            input@.len() == len,
            i <= nb,
            st == sip_state_after(input@, k0, k1, i as nat),
        decreases nb - i,
    {
        let b = 8 * i;
        let m = (input[b] as u64) | ((input[b + 1] as u64) << 8) | ((input[b + 2] as u64) << 16) | (
        (input[b + 3] as u64) << 24) | ((input[b + 4] as u64) << 32) | ((input[b + 5] as u64) << 40)
            | ((input[b + 6] as u64) << 48) | ((input[b + 7] as u64) << 56);
        assert(m == le64_at(input@, 8 * (i as int)));
        st = sip_compress_exec(st, m);
        i = i + 1;
    }
    // Build the final block from the trailing bytes and the length byte.
    let mut t: u64 = 0;
    let mut j: usize = 0;
    while j < rem
        invariant
            input@.len() == len,
            rem == len % 8,
            base == len - rem,
            j <= rem,
            t == le_word(input@.subrange(base as int, base + j)),
        decreases rem - j,
    {
        let byte = input[base + j];
        t = t | ((byte as u64) << (8 * (j as u64)));
        proof {
            let pre = input@.subrange(base as int, base + j);
            let post = input@.subrange(base as int, base + j + 1);
            assert(post.drop_last() =~= pre);
            assert(post.last() == input@[base + j]);
        }
        j = j + 1;
    }
    let hdr = ((len as u64) % 256) << 56;
    assert(hdr == ((input@.len() % 256) as u64) << 56);
    let b = hdr | t;
    assert(b == sip_tail_word(input@));
    st = sip_compress_exec(st, b);
    st.v2 = st.v2 ^ 0xff;
    let ghost sf = st;
    st = sip_round_exec(st);
    assert(sip_rounds(sf, 0) == sf);
    assert(st == sip_rounds(sf, 1));
    st = sip_round_exec(st);
    assert(st == sip_rounds(sf, 2));
    st = sip_round_exec(st);
    assert(st == sip_rounds(sf, 3));
    st = sip_round_exec(st);
    assert(st == sip_rounds(sf, 4));
    st.v0 ^ st.v1 ^ st.v2 ^ st.v3
}

} // verus!
