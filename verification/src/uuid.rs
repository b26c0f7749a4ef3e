//! The 128-bit identifier and the reversible facade transform.

use vstd::prelude::*;

use crate::error::UuidValidationError;
use crate::key::UuidV47Key;
use crate::siphash::siphash24;
use crate::siphash::siphash24_of;
use crate::utils::be48_bytes;
use crate::utils::be48_of;
use crate::utils::lemma_be48_bound;
use crate::utils::lemma_be48_read_write;
use crate::utils::lemma_be48_write_read;
use crate::utils::read_48_big_endian;
use crate::utils::write_48_big_endian;

verus! {

/// The version nibble: the high nibble of byte 6.
pub open spec fn version_of(b: Seq<u8>) -> u8
    recommends
        b.len() == 16,
{
    (b[6] >> 4) & 0x0F
}

/// The variant marker: the top two bits of byte 8.
pub open spec fn variant_of(b: Seq<u8>) -> u8
    recommends
        b.len() == 16,
{
    (b[8] & 0xC0) >> 6
}

/// A valid identifier: 16 bytes, version 4 or 7, RFC 4122 variant.
pub open spec fn well_formed(b: Seq<u8>) -> bool {
    &&& b.len() == 16
    &&& (version_of(b) == 4 || version_of(b) == 7)
    &&& variant_of(b) == 2
}

/// Byte 6 with its high nibble overwritten by the low nibble of `ver`.
pub open spec fn set_version_spec(b: Seq<u8>, ver: u8) -> Seq<u8>
    recommends
        b.len() == 16,
{
    b.update(6, (b[6] & 0x0F) | ((ver & 0x0F) << 4))
}

/// Byte 8 with its top two bits forced to `10`.
pub open spec fn set_variant_spec(b: Seq<u8>) -> Seq<u8>
    recommends
        b.len() == 16,
{
    b.update(8, (b[8] & 0x3F) | 0x80)
}

/// The 10-byte invariant message: the 74 random payload bits, and nothing
/// from the timestamp or the marker bits.
pub open spec fn sip_msg_of(b: Seq<u8>) -> Seq<u8>
    recommends
        b.len() == 16,
{
    seq![b[6] & 0x0F, b[7], b[8] & 0x3F] + b.subrange(9, 16)
}

/// The 48-bit keystream masking the timestamp field.
pub open spec fn mask48_of(b: Seq<u8>, k0: u64, k1: u64) -> u64
    recommends
        b.len() == 16,
{
    siphash24_of(sip_msg_of(b), k0, k1) & 0xFFFF_FFFF_FFFF
}

/// The timestamp field: bytes 0 to 5, big-endian.
pub open spec fn ts48_of(b: Seq<u8>) -> u64
    recommends
        b.len() == 16,
{
    be48_of(b.subrange(0, 6))
}

/// The identifier with the low 48 bits of `v` written into its timestamp field.
pub open spec fn with_ts48(b: Seq<u8>, v: u64) -> Seq<u8>
    recommends
        b.len() == 16,
{
    be48_bytes(v) + b.subrange(6, 16)
}

/// The facade of `b` under key `(k0, k1)`: the timestamp XORed with the
/// keystream, version forced to 4, variant forced to `10`.
pub open spec fn encode_spec(b: Seq<u8>, k0: u64, k1: u64) -> Seq<u8>
    recommends
        b.len() == 16,
{
    set_variant_spec(set_version_spec(with_ts48(b, ts48_of(b) ^ mask48_of(b, k0, k1)), 4))
}

/// The inverse transform: the same keystream XORed back, version forced to 7,
/// variant forced to `10`.
pub open spec fn decode_spec(b: Seq<u8>, k0: u64, k1: u64) -> Seq<u8>
    recommends
        b.len() == 16,
{
    set_variant_spec(set_version_spec(with_ts48(b, ts48_of(b) ^ mask48_of(b, k0, k1)), 7))
}

/// A 128-bit identifier (version 4 or version 7).
#[derive(Debug, PartialEq, Eq, Clone, Copy, Hash)]
pub struct Uuid128 {
    bytes: [u8; 16],
}

impl View for Uuid128 {
    type V = Seq<u8>;

    closed spec fn view(&self) -> Seq<u8> {
        self.bytes@
    }
}

/// An identifier always views as exactly 16 bytes.
pub broadcast proof fn lemma_uuid128_view_len(u: Uuid128)
    ensures
        #[trigger] u@.len() == 16,
{
}

impl Uuid128 {
    /// Creates the empty version-7 identifier: all timestamp and payload
    /// bits zero, version 7, RFC 4122 variant.
    pub fn empty() -> (r: Self)
        ensures
            r@ =~= seq![
                0u8,
                0u8,
                0u8,
                0u8,
                0u8,
                0u8,
                0x70u8,
                0u8,
                0x80u8,
                0u8,
                0u8,
                0u8,
                0u8,
                0u8,
                0u8,
                0u8,
            ],
            well_formed(r@),
            version_of(r@) == 7,
    {
        let mut out = Uuid128 { bytes: [0u8; 16] };
        out.set_version(7);
        out.set_variant_rfc4122();
        proof {
            assert(((0u8 & 0x0F) | ((7u8 & 0x0F) << 4)) == 0x70u8) by (bit_vector);
            assert(((0u8 & 0x3F) | 0x80) == 0x80u8) by (bit_vector);
            assert(((0x70u8 >> 4) & 0x0F) == 7u8) by (bit_vector);
            assert(((0x80u8 & 0xC0) >> 6) == 2u8) by (bit_vector);
        }
        out
    }

    /// Creates an identifier from raw bytes, validating the version and
    /// variant markers.
    ///
    /// Returns `InvalidVersion` when the version nibble is neither 4 nor 7,
    /// and `InvalidVariant` when the version is acceptable but the variant
    /// bits are not `10`.
    pub fn from_bytes(bytes: [u8; 16]) -> (r: Result<Self, UuidValidationError>)
        ensures
            well_formed(bytes@) <==> r is Ok,
            r is Ok ==> r.unwrap()@ == bytes@,
            version_of(bytes@) != 4 && version_of(bytes@) != 7 ==> r == Err::<
                Self,
                UuidValidationError,
            >(UuidValidationError::InvalidVersion),
            (version_of(bytes@) == 4 || version_of(bytes@) == 7) && variant_of(bytes@) != 2 ==> r
                == Err::<Self, UuidValidationError>(UuidValidationError::InvalidVariant),
    {
        let version = (bytes[6] >> 4) & 0x0F;
        if version != 4 && version != 7 {
            return Err(UuidValidationError::InvalidVersion);
        }
        let variant = (bytes[8] & 0xC0) >> 6;
        if variant != 0b10 {
            return Err(UuidValidationError::InvalidVariant);
        }
        Ok(Uuid128 { bytes })
    }

    /// The raw 16 bytes of the identifier.
    pub fn to_bytes(&self) -> (r: [u8; 16])
        ensures
            r@ == self@,
    {
        self.bytes
    }

    /// The version nibble: 4 or 7 for valid identifiers.
    pub fn uuid_version(&self) -> (r: u8)
        ensures
            r == version_of(self@),
    {
        (self.bytes[6] >> 4) & 0x0F
    }

    /// Overwrites the version nibble, leaving the low nibble of byte 6 alone.
    pub fn set_version(&mut self, ver: u8)
        ensures
            final(self)@ == set_version_spec(old(self)@, ver),
    {
        self.bytes[6] = (self.bytes[6] & 0x0F) | ((ver & 0x0F) << 4);
    }

    /// Forces the top two bits of byte 8 to `10`, leaving the rest alone.
    pub fn set_variant_rfc4122(&mut self)
        ensures
            final(self)@ == set_variant_spec(old(self)@),
    {
        self.bytes[8] = (self.bytes[8] & 0x3F) | 0x80;
    }

    /// Copies bytes 0 to 5, the timestamp field, into a fixed-size array.
    fn ts_field(&self) -> (r: [u8; 6])
        ensures
            r@ =~= self@.subrange(0, 6),
    {
        let mut r: [u8; 6] = [0u8; 6];
        r[0] = self.bytes[0];
        r[1] = self.bytes[1];
        r[2] = self.bytes[2];
        r[3] = self.bytes[3];
        r[4] = self.bytes[4];
        r[5] = self.bytes[5];
        r
    }

    /// Writes the low 48 bits of `v` into bytes 0 to 5.
    fn put_ts_field(&mut self, v: u64)
        ensures
            final(self)@ =~= with_ts48(old(self)@, v),
    {
        let mut t: [u8; 6] = [0u8; 6];
        write_48_big_endian(&mut t, v);
        self.bytes[0] = t[0];
        self.bytes[1] = t[1];
        self.bytes[2] = t[2];
        self.bytes[3] = t[3];
        self.bytes[4] = t[4];
        self.bytes[5] = t[5];
    }

    /// Masks the timestamp field under `key`, producing the version-4 facade.
    ///
    /// Total: the input's own markers are not validated, and the result is
    /// always a well-formed facade.
    pub fn encode_as_v4facade(&self, key: &UuidV47Key) -> (r: Uuid128)
        ensures
            r@ =~= encode_spec(self@, key.k0, key.k1),
            version_of(r@) == 4,
            variant_of(r@) == 2,
            well_formed(r@),
            sip_msg_of(r@) =~= sip_msg_of(self@),
    {
        let mut sipmsg: [u8; 10] = [0u8; 10];
        build_sip_input_from_v7(self, &mut sipmsg);
        let mask48 = siphash24(sipmsg.as_slice(), key.k0, key.k1) & 0xFFFF_FFFF_FFFF;
        let ts = read_48_big_endian(self.ts_field());
        let enc_ts = ts ^ mask48;
        let mut out = *self;
        out.put_ts_field(enc_ts);
        out.set_version(4);
        out.set_variant_rfc4122();
        proof {
            lemma_transform_shape(self@, enc_ts, 4);
        }
        out
    }

    /// Unmasks the timestamp field under `key`, recovering the version-7 form.
    ///
    /// Total: the input's own markers are not validated, and the result is
    /// always a well-formed identifier.
    pub fn decode_from_v4facade(&self, key: &UuidV47Key) -> (r: Uuid128)
        ensures
            r@ =~= decode_spec(self@, key.k0, key.k1),
            version_of(r@) == 7,
            variant_of(r@) == 2,
            well_formed(r@),
            sip_msg_of(r@) =~= sip_msg_of(self@),
    {
        let mut sipmsg: [u8; 10] = [0u8; 10];
        build_sip_input_from_v7(self, &mut sipmsg);
        let mask48 = siphash24(sipmsg.as_slice(), key.k0, key.k1) & 0xFFFF_FFFF_FFFF;
        let ts48 = read_48_big_endian(self.ts_field()) ^ mask48;
        let mut out = *self;
        out.put_ts_field(ts48);
        out.set_version(7);
        out.set_variant_rfc4122();
        proof {
            lemma_transform_shape(self@, ts48, 7);
        }
        out
    }
}

/// After writing a timestamp field and forcing the markers, the version and
/// variant read back as forced, the timestamp field holds the written value,
/// and the 10-byte invariant message is unchanged.
pub proof fn lemma_transform_shape(b: Seq<u8>, v: u64, ver: u8)
    requires
        b.len() == 16,
        ver == 4 || ver == 7,
    ensures
        ({
            let r = set_variant_spec(set_version_spec(with_ts48(b, v), ver));
            &&& r.len() == 16
            &&& version_of(r) == ver
            &&& variant_of(r) == 2
            &&& sip_msg_of(r) =~= sip_msg_of(b)
            &&& r.subrange(0, 6) =~= be48_bytes(v)
        }),
{
    let w = with_ts48(b, v);
    let r = set_variant_spec(set_version_spec(w, ver));
    assert(w[6] == b[6]);
    assert(w[8] == b[8]);
    let c = b[6];
    let d = b[8];
    assert(r[6] == (c & 0x0F) | ((ver & 0x0F) << 4));
    assert(r[8] == (d & 0x3F) | 0x80);
    assert({
        &&& ((((c & 0x0F) | ((ver & 0x0F) << 4)) >> 4) & 0x0F) == ver
        &&& (((c & 0x0F) | ((ver & 0x0F) << 4)) & 0x0F) == (c & 0x0F)
    }) by (bit_vector)
        requires
            ver == 4 || ver == 7,
    ;
    assert({
        &&& ((((d & 0x3F) | 0x80) & 0xC0) >> 6) == 2
        &&& (((d & 0x3F) | 0x80) & 0x3F) == (d & 0x3F)
    }) by (bit_vector);
    assert(sip_msg_of(r) =~= sip_msg_of(b));
    assert(r.subrange(0, 6) =~= be48_bytes(v));
}

/// Round trip: for every well-formed version-7 identifier and every key,
/// decoding the encoded facade restores the identifier byte for byte,
/// marker bits included.
pub proof fn lemma_encode_decode_roundtrip(b: Seq<u8>, k0: u64, k1: u64)
    requires
        b.len() == 16,
        version_of(b) == 7,
        variant_of(b) == 2,
    ensures
        decode_spec(encode_spec(b, k0, k1), k0, k1) =~= b,
{
    let m = mask48_of(b, k0, k1);
    let ts = ts48_of(b);
    let e = encode_spec(b, k0, k1);
    lemma_transform_shape(b, ts ^ m, 4);
    assert(sip_msg_of(e) == sip_msg_of(b));
    assert(mask48_of(e, k0, k1) == m);
    // The stored field XORs back to the original timestamp.
    assert(e.subrange(0, 6) =~= be48_bytes(ts ^ m));
    lemma_be48_read_write(ts ^ m);
    lemma_be48_bound(b.subrange(0, 6));
    let s = siphash24_of(sip_msg_of(b), k0, k1);
    assert((((ts ^ (s & 0xFFFF_FFFF_FFFF)) & 0xFFFF_FFFF_FFFF) ^ (s & 0xFFFF_FFFF_FFFF)) == ts)
        by (bit_vector)
        requires
            ts < 0x1_0000_0000_0000,
    ;
    assert(ts48_of(e) ^ mask48_of(e, k0, k1) == ts);
    let d = decode_spec(e, k0, k1);
    lemma_transform_shape(e, ts, 7);
    // Bytes 0 to 5: the original timestamp bytes come back.
    lemma_be48_write_read(b.subrange(0, 6));
    assert(d.subrange(0, 6) =~= b.subrange(0, 6));
    // Byte 6: forcing version 7 restores it, because the input had version 7.
    assert(sip_msg_of(e)[0] == (e[6] & 0x0F));
    assert(sip_msg_of(b)[0] == (b[6] & 0x0F));
    assert(d[6] == (e[6] & 0x0F) | ((7u8 & 0x0F) << 4));
    let c6 = b[6];
    assert(((c6 & 0x0F) | ((7u8 & 0x0F) << 4)) == c6) by (bit_vector)
        requires
            ((c6 >> 4) & 0x0F) == 7,
    ;
    // Byte 7 and bytes 9 to 15 pass through both transforms.
    assert(sip_msg_of(e)[1] == e[7] && sip_msg_of(b)[1] == b[7]);
    assert(d[7] == e[7]);
    // Byte 8: forcing the variant restores it, because the input had it.
    assert(sip_msg_of(e)[2] == (e[8] & 0x3F));
    assert(sip_msg_of(b)[2] == (b[8] & 0x3F));
    assert(d[8] == (e[8] & 0x3F) | 0x80);
    let c8 = b[8];
    assert(((c8 & 0x3F) | 0x80) == c8) by (bit_vector)
        requires
            ((c8 & 0xC0) >> 6) == 2,
    ;
    assert forall|j: int| 9 <= j < 16 implies d[j] == b[j] by {
        assert(sip_msg_of(e)[j - 6] == e[j]);
        assert(sip_msg_of(b)[j - 6] == b[j]);
        assert(d[j] == e[j]);
    }
    assert(d =~= b);
}

/// Wrong-key divergence, as far as it holds of every input: decoding a
/// facade under a second key restores the original exactly when the two keys
/// derive the same keystream for its payload. Distinct keys are expected to
/// derive distinct keystreams, but that is a property of the hash checked by
/// test vectors, not a theorem.
pub proof fn lemma_wrong_key_divergence(b: Seq<u8>, ka0: u64, ka1: u64, kb0: u64, kb1: u64)
    requires
        b.len() == 16,
        version_of(b) == 7,
        variant_of(b) == 2,
    ensures
        decode_spec(encode_spec(b, ka0, ka1), kb0, kb1) =~= b <==> mask48_of(b, ka0, ka1)
            == mask48_of(b, kb0, kb1),
{
    let ma = mask48_of(b, ka0, ka1);
    let mb = mask48_of(b, kb0, kb1);
    let ts = ts48_of(b);
    let e = encode_spec(b, ka0, ka1);
    lemma_transform_shape(b, ts ^ ma, 4);
    assert(sip_msg_of(e) == sip_msg_of(b));
    assert(mask48_of(e, kb0, kb1) == mb);
    // The field the facade stores, and what decoding under the second key
    // recovers from it.
    assert(e.subrange(0, 6) =~= be48_bytes(ts ^ ma));
    lemma_be48_read_write(ts ^ ma);
    lemma_be48_bound(b.subrange(0, 6));
    let sa = siphash24_of(sip_msg_of(b), ka0, ka1);
    assert(((ts ^ (sa & 0xFFFF_FFFF_FFFF)) & 0xFFFF_FFFF_FFFF) == (ts ^ (sa & 0xFFFF_FFFF_FFFF)))
        by (bit_vector)
        requires
            ts < 0x1_0000_0000_0000,
    ;
    assert(ts48_of(e) == ts ^ ma);
    let rec = (ts ^ ma) ^ mb;
    let d = decode_spec(e, kb0, kb1);
    lemma_transform_shape(e, rec, 7);
    // Every byte from 6 on matches the original, exactly as in the round
    // trip: the markers are forced back to what a version-7 input carries,
    // and the payload passes through.
    assert(sip_msg_of(e)[0] == (e[6] & 0x0F) && sip_msg_of(b)[0] == (b[6] & 0x0F));
    assert(d[6] == (e[6] & 0x0F) | ((7u8 & 0x0F) << 4));
    let c6 = b[6];
    assert(((c6 & 0x0F) | ((7u8 & 0x0F) << 4)) == c6) by (bit_vector)
        requires
            ((c6 >> 4) & 0x0F) == 7,
    ;
    assert(sip_msg_of(e)[1] == e[7] && sip_msg_of(b)[1] == b[7]);
    assert(d[7] == b[7]);
    assert(sip_msg_of(e)[2] == (e[8] & 0x3F) && sip_msg_of(b)[2] == (b[8] & 0x3F));
    assert(d[8] == (e[8] & 0x3F) | 0x80);
    let c8 = b[8];
    assert(((c8 & 0x3F) | 0x80) == c8) by (bit_vector)
        requires
            ((c8 & 0xC0) >> 6) == 2,
    ;
    assert forall|j: int| 9 <= j < 16 implies d[j] == b[j] by {
        assert(sip_msg_of(e)[j - 6] == e[j]);
        assert(sip_msg_of(b)[j - 6] == b[j]);
        assert(d[j] == e[j]);
    }
    // Bytes 0 to 5 match exactly when the recovered field equals the
    // original timestamp, that is, when the two keystreams agree.
    lemma_be48_write_read(b.subrange(0, 6));
    assert(d.subrange(0, 6) =~= be48_bytes(rec));
    assert(b.subrange(0, 6) =~= be48_bytes(ts));
    lemma_be48_read_write(rec);
    lemma_be48_read_write(ts);
    let sb = siphash24_of(sip_msg_of(b), kb0, kb1);
    assert({
        let mav = sa & 0xFFFF_FFFF_FFFF;
        let mbv = sb & 0xFFFF_FFFF_FFFF;
        let recv = (ts ^ mav) ^ mbv;
        &&& (recv & 0xFFFF_FFFF_FFFF) == recv
        &&& (ts & 0xFFFF_FFFF_FFFF) == ts
        &&& (recv == ts <==> mav == mbv)
    }) by (bit_vector)
        requires
            ts < 0x1_0000_0000_0000,
    ;
    if ma == mb {
        assert(rec == ts);
        assert(d =~= b);
    }
    if d =~= b {
        assert(be48_bytes(rec) =~= be48_bytes(ts));
        assert(be48_of(be48_bytes(rec)) == be48_of(be48_bytes(ts)));
        assert(rec == ts);
        assert(ma == mb);
    }
}

/// Builds the 10-byte invariant message from the bytes the transform never
/// touches: the low nibble of byte 6, byte 7, the low six bits of byte 8,
/// and bytes 9 to 15.
fn build_sip_input_from_v7(u: &Uuid128, msg: &mut [u8; 10])
    ensures
        final(msg)@ =~= sip_msg_of(u@),
{
    msg[0] = u.bytes[6] & 0x0F;
    msg[1] = u.bytes[7];
    msg[2] = u.bytes[8] & 0x3F;
    msg[3] = u.bytes[9];
    msg[4] = u.bytes[10];
    msg[5] = u.bytes[11];
    msg[6] = u.bytes[12];
    msg[7] = u.bytes[13];
    msg[8] = u.bytes[14];
    msg[9] = u.bytes[15];
}

} // verus!
