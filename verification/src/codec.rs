//! The canonical text codec: strict parsing and formatting of the
//! 36-character hyphenated hex form `xxxxxxxx-xxxx-xxxx-xxxx-xxxxxxxxxxxx`.

use vstd::prelude::*;
use vstd::string::StringSliceAdditionalSpecFns;

use crate::error::UuidParseError;
use crate::utils::hex_lower;
use crate::utils::hex_val;
use crate::utils::hexval;
use crate::utils::is_hex_byte;
use crate::uuid::well_formed;
use crate::uuid::Uuid128;

verus! {

broadcast use crate::uuid::lemma_uuid128_view_len;

/// Whether `j` is one of the four fixed hyphen positions.
pub open spec fn is_hyphen_pos(j: int) -> bool {
    j == 8 || j == 13 || j == 18 || j == 23
}

/// The text position of the `i`-th hex digit, skipping the hyphens.
pub open spec fn char_pos(i: int) -> int
    recommends
        0 <= i < 32,
{
    if i < 8 {
        i
    } else if i < 12 {
        i + 1
    } else if i < 16 {
        i + 2
    } else if i < 20 {
        i + 3
    } else {
        i + 4
    }
}

/// The hex digit number held at non-hyphen text position `j`.
pub open spec fn digit_index(j: int) -> int
    recommends
        0 <= j < 36 && !is_hyphen_pos(j),
{
    if j < 8 {
        j
    } else if j < 13 {
        j - 1
    } else if j < 18 {
        j - 2
    } else if j < 23 {
        j - 3
    } else {
        j - 4
    }
}

/// Whether 36 text bytes have the canonical shape: hyphens exactly at
/// positions 8, 13, 18 and 23, hex digits (either case) everywhere else.
pub open spec fn text_shape_ok(t: Seq<u8>) -> bool {
    &&& t.len() == 36
    &&& t[8] == 0x2D
    &&& t[13] == 0x2D
    &&& t[18] == 0x2D
    &&& t[23] == 0x2D
    &&& forall|j: int| 0 <= j < 36 && !is_hyphen_pos(j) ==> is_hex_byte(#[trigger] t[j])
}

/// Canonical text: the shape above with every hex digit lowercase.
pub open spec fn text_canonical(t: Seq<u8>) -> bool {
    &&& text_shape_ok(t)
    &&& forall|j: int| 0 <= j < 36 && !is_hyphen_pos(j) ==> !(0x41 <= #[trigger] t[j] <= 0x46)
}

/// The 16 bytes decoded from well-shaped text: two hex digits per byte,
/// groups of 4, 2, 2, 2 and 6 bytes between the hyphens.
pub open spec fn parsed_bytes(t: Seq<u8>) -> Seq<u8>
    recommends
        text_shape_ok(t),
{
    Seq::new(16, |i: int| (hex_val(t[char_pos(2 * i)]) << 4) | hex_val(t[char_pos(2 * i + 1)]))
}

/// The `d`-th hex digit value of 16 raw bytes: high nibble first.
pub open spec fn nibble_of(b: Seq<u8>, d: int) -> u8
    recommends
        b.len() == 16,
        0 <= d < 32,
{
    if d % 2 == 0 {
        (b[d / 2] >> 4) & 0x0F
    } else {
        b[d / 2] & 0x0F
    }
}

/// The canonical 36 text bytes for 16 raw bytes: lowercase hex with hyphens
/// at the four fixed positions.
pub open spec fn formatted(b: Seq<u8>) -> Seq<u8>
    recommends
        b.len() == 16,
{
    Seq::new(
        36,
        |j: int|
            if is_hyphen_pos(j) {
                0x2Du8
            } else {
                hex_lower(nibble_of(b, digit_index(j)))
            },
    )
}

/// What parsing text bytes yields: the exact error on every rejected input,
/// the decoded bytes otherwise.
pub open spec fn parse_result(t: Seq<u8>) -> Result<Seq<u8>, UuidParseError> {
    if t.len() != 36 {
        Err(UuidParseError::InvalidLength)
    } else if !text_shape_ok(t) {
        Err(UuidParseError::InvalidHex)
    } else if !well_formed(parsed_bytes(t)) {
        Err(UuidParseError::InvalidHex)
    } else {
        Ok(parsed_bytes(t))
    }
}

/// The characters with the same values as a sequence of ASCII bytes.
pub open spec fn ascii_chars_of(t: Seq<u8>) -> Seq<char> {
    Seq::new(t.len(), |i: int| t[i] as char)
}

/// Every hex digit position maps to a non-hyphen text position, and the two
/// maps invert each other.
pub proof fn lemma_digit_positions()
    ensures
        forall|i: int|
            0 <= i < 32 ==> 0 <= #[trigger] char_pos(i) < 36 && !is_hyphen_pos(char_pos(i))
                && digit_index(char_pos(i)) == i,
        forall|j: int|
            0 <= j < 36 && !is_hyphen_pos(j) ==> 0 <= #[trigger] digit_index(j) < 32 && char_pos(
                digit_index(j),
            ) == j,
{
}

fn hex_digit_pos(i: usize) -> (p: usize)
    requires
        i < 32,
    ensures
        p as int == char_pos(i as int),
        p < 36,
{
    if i < 8 {
        i
    } else if i < 12 {
        i + 1
    } else if i < 16 {
        i + 2
    } else if i < 20 {
        i + 3
    } else {
        i + 4
    }
}

fn digit_index_exec(j: usize) -> (d: usize)
    requires
        j < 36,
        !is_hyphen_pos(j as int),
    ensures
        d as int == digit_index(j as int),
        d < 32,
{
    if j < 8 {
        j
    } else if j < 13 {
        j - 1
    } else if j < 18 {
        j - 2
    } else if j < 23 {
        j - 3
    } else {
        j - 4
    }
}

fn hex_lower_exec(n: u8) -> (r: u8)
    requires
        n < 16,
    ensures
        r == hex_lower(n),
{
    if n < 10 {
        0x30 + n
    } else {
        0x57 + n
    }
}

/// Relies on `String::from_utf8`: bytes below `0x80` are single-byte UTF-8
/// code points, so they decode to the string of the chars with those values.
#[verifier::external_body]
fn ascii_string_from_bytes(v: Vec<u8>) -> (s: String)
    requires
        forall|i: int| 0 <= i < v@.len() ==> v@[i] < 0x80,
    ensures
        s@ == ascii_chars_of(v@),
{
    match String::from_utf8(v) {
        Ok(s) => s,
        Err(_) => String::new(),
    }
}

/// Parses the canonical 36-character text form into an identifier.
///
/// Rejects any other length with `InvalidLength`; rejects a misplaced hyphen,
/// a non-hex character, or decoded bytes with bad version or variant markers
/// with `InvalidHex`. Accepts hex digits of either case.
pub fn uuid_parse(s: &str) -> (r: Result<Uuid128, UuidParseError>)
    ensures
        (r is Ok) == (parse_result(s.spec_bytes()) is Ok),
        r is Ok ==> parse_result(s.spec_bytes()) == Ok::<Seq<u8>, UuidParseError>(r.unwrap()@),
        r is Err ==> parse_result(s.spec_bytes()) == Err::<Seq<u8>, UuidParseError>(
            r.unwrap_err(),
        ),
{
    let b = s.as_bytes();
    let ghost t = s.spec_bytes();
    if b.len() != 36 {
        return Err(UuidParseError::InvalidLength);
    }
    if !(b[8] == 0x2D && b[13] == 0x2D && b[18] == 0x2D && b[23] == 0x2D) {
        return Err(UuidParseError::InvalidHex);
    }
    proof {
        lemma_digit_positions();
    }
    let mut out: [u8; 16] = [0u8; 16];
    let mut i: usize = 0;
    while i < 16
        invariant
            b@ == t,
            t == s.spec_bytes(),
            t.len() == 36,
            t[8] == 0x2D && t[13] == 0x2D && t[18] == 0x2D && t[23] == 0x2D,
            i <= 16,
            forall|k: int|
                0 <= k < 2 * i ==> is_hex_byte(#[trigger] t[char_pos(k)]),
            forall|k: int|
                0 <= k < i ==> #[trigger] out@[k] == ((hex_val(t[char_pos(2 * k)]) << 4) | hex_val(
                    t[char_pos(2 * k + 1)],
                )),
        decreases 16 - i,
    {
        proof {
            lemma_digit_positions();
        }
        let hp = hex_digit_pos(2 * i);
        let lp = hex_digit_pos(2 * i + 1);
        let hv = hexval(b[hp]);
        let lv = hexval(b[lp]);
        match (hv, lv) {
            (Some(h), Some(l)) => {
                out[i] = (h << 4) | l;
            },
            _ => {
                proof {
                    assert(!text_shape_ok(t));
                }
                return Err(UuidParseError::InvalidHex);
            },
        }
        i = i + 1;
    }
    proof {
        lemma_digit_positions();
        assert forall|j: int| 0 <= j < 36 && !is_hyphen_pos(j) implies is_hex_byte(
            #[trigger] t[j],
        ) by {
            assert(t[char_pos(digit_index(j))] == t[j]);
        }
        assert(text_shape_ok(t));
        assert(out@ =~= parsed_bytes(t));
    }
    match Uuid128::from_bytes(out) {
        Ok(u) => Ok(u),
        Err(_) => Err(UuidParseError::InvalidHex),
    }
}

/// Formats an identifier as its canonical text: lowercase hex in the
/// 8-4-4-4-12 layout. Total; the inverse of `uuid_parse` on valid values.
pub fn uuid_format(u: &Uuid128) -> (res: String)
    ensures
        res@ == ascii_chars_of(formatted(u@)),
        res@.len() == 36,
        vstd::utf8::encode_utf8(res@) =~= formatted(u@),
{
    let bytes = u.to_bytes();
    let mut out: Vec<u8> = Vec::new();
    let mut j: usize = 0;
    while j < 36
        invariant
            bytes@ == u@,
            out@.len() == j,
            j <= 36,
            forall|k: int| 0 <= k < j ==> #[trigger] out@[k] == formatted(u@)[k],
        decreases 36 - j,
    {
        if j == 8 || j == 13 || j == 18 || j == 23 {
            out.push(0x2D);
        } else {
            let d = digit_index_exec(j);
            let byte = bytes[d / 2];
            let nib = if d % 2 == 0 {
                (byte >> 4) & 0x0F
            } else {
                byte & 0x0F
            };
            proof {
                assert((byte >> 4) & 0x0F < 16 && byte & 0x0F < 16) by (bit_vector);
            }
            let c = hex_lower_exec(nib);
            out.push(c);
        }
        j = j + 1;
    }
    proof {
        assert(out@ =~= formatted(u@));
        lemma_formatted_ascii(u@);
        lemma_ascii_chars_encode(formatted(u@));
    }
    ascii_string_from_bytes(out)
}

/// The characters of pure ASCII bytes encode back to exactly those bytes,
/// so a formatted string's UTF-8 bytes are the formatted text bytes and
/// `uuid_parse` sees them unchanged.
pub proof fn lemma_ascii_chars_encode(t: Seq<u8>)
    requires
        forall|i: int| 0 <= i < t.len() ==> #[trigger] t[i] < 0x80,
    ensures
        vstd::utf8::encode_utf8(ascii_chars_of(t)) =~= t,
{
    let chars = ascii_chars_of(t);
    assert(vstd::utf8::is_ascii_chars(chars));
    vstd::utf8::is_ascii_chars_encode_utf8(chars);
    assert(vstd::utf8::encode_utf8(chars) =~= t);
}

/// Formatted text is pure ASCII: a hyphen or a lowercase hex digit at
/// every position.
pub proof fn lemma_formatted_ascii(b: Seq<u8>)
    requires
        b.len() == 16,
    ensures
        forall|j: int| 0 <= j < 36 ==> #[trigger] formatted(b)[j] < 0x80,
        text_canonical(formatted(b)),
{
    assert forall|j: int| 0 <= j < 36 implies #[trigger] formatted(b)[j] < 0x80 && (
    !is_hyphen_pos(j) ==> is_hex_byte(formatted(b)[j]) && !(0x41 <= formatted(b)[j] <= 0x46)) by {
        if !is_hyphen_pos(j) {
            let d = digit_index(j);
            lemma_digit_positions();
            lemma_nibble_bounds(b, d);
        }
    }
    assert(text_shape_ok(formatted(b)));
}

/// Each nibble of a byte is below 16.
proof fn lemma_nibble_bounds(b: Seq<u8>, d: int)
    requires
        b.len() == 16,
        0 <= d < 32,
    ensures
        nibble_of(b, d) < 16,
{
    let x = b[d / 2];
    assert(((x >> 4) & 0x0F) < 16 && (x & 0x0F) < 16) by (bit_vector);
}

/// Text round trip, first direction: formatting any well-formed 16 bytes
/// yields canonical text that parses back to exactly those bytes.
pub proof fn lemma_parse_format_roundtrip(b: Seq<u8>)
    requires
        b.len() == 16,
        well_formed(b),
    ensures
        parse_result(formatted(b)) == Ok::<Seq<u8>, UuidParseError>(b),
{
    let f = formatted(b);
    lemma_formatted_ascii(b);
    lemma_digit_positions();
    assert forall|i: int| 0 <= i < 16 implies parsed_bytes(f)[i] == b[i] by {
        let hi = nibble_of(b, 2 * i);
        let lo = nibble_of(b, 2 * i + 1);
        assert(f[char_pos(2 * i)] == hex_lower(hi));
        assert(f[char_pos(2 * i + 1)] == hex_lower(lo));
        lemma_nibble_bounds(b, 2 * i);
        lemma_nibble_bounds(b, 2 * i + 1);
        lemma_hex_lower_val(hi);
        lemma_hex_lower_val(lo);
        let x = b[i];
        assert((((x >> 4) & 0x0F) << 4) | (x & 0x0F) == x) by (bit_vector);
    }
    assert(parsed_bytes(f) =~= b);
}

/// Text round trip, second direction: canonical text that decodes to a
/// well-formed value is reproduced exactly by formatting that value.
pub proof fn lemma_format_parse_roundtrip(t: Seq<u8>)
    requires
        text_canonical(t),
        well_formed(parsed_bytes(t)),
    ensures
        parse_result(t) == Ok::<Seq<u8>, UuidParseError>(parsed_bytes(t)),
        formatted(parsed_bytes(t)) =~= t,
{
    let p = parsed_bytes(t);
    lemma_digit_positions();
    assert forall|j: int| 0 <= j < 36 implies formatted(p)[j] == t[j] by {
        if !is_hyphen_pos(j) {
            let d = digit_index(j);
            let i = d / 2;
            let h = hex_val(t[char_pos(2 * i)]);
            let l = hex_val(t[char_pos(2 * i + 1)]);
            lemma_hex_val_bound(t[char_pos(2 * i)]);
            lemma_hex_val_bound(t[char_pos(2 * i + 1)]);
            assert(p[i] == (h << 4) | l);
            assert((((h << 4) | l) >> 4) & 0x0F == h && ((h << 4) | l) & 0x0F == l)
                by (bit_vector)
                requires
                    h < 16 && l < 16,
            ;
            if d % 2 == 0 {
                assert(char_pos(2 * i) == j);
                lemma_hex_val_lower(t[j]);
            } else {
                assert(char_pos(2 * i + 1) == j);
                lemma_hex_val_lower(t[j]);
            }
        }
    }
    assert(formatted(p) =~= t);
}

/// The value of a hex digit is below 16.
proof fn lemma_hex_val_bound(c: u8)
    requires
        is_hex_byte(c),
    ensures
        hex_val(c) < 16,
{
}

/// Encoding a digit value back to lowercase undoes `hex_val` on any
/// lowercase hex digit.
proof fn lemma_hex_val_lower(c: u8)
    requires
        is_hex_byte(c),
        !(0x41 <= c <= 0x46),
    ensures
        hex_lower(hex_val(c)) == c,
{
}

/// Reading the digit value back undoes `hex_lower` on any value below 16.
proof fn lemma_hex_lower_val(n: u8)
    requires
        n < 16,
    ensures
        is_hex_byte(hex_lower(n)),
        !(0x41 <= hex_lower(n) <= 0x46),
        hex_val(hex_lower(n)) == n,
{
}

impl core::str::FromStr for Uuid128 {
    type Err = UuidParseError;

    fn from_str(s: &str) -> Result<Self, Self::Err> {
        uuid_parse(s)
    }
}

} // verus!
