use uuid47::uuid_format;
use uuid47::uuid_parse;
use uuid47::Uuid128;
use uuid47::UuidParseError;
use uuid47::UuidV47Key;

#[test]
fn tests_test_uuid_parse_format_roundtrip() {
    // Correct 8-4-4-4-12 layout; version nibble '7' at start of 3rd group; RFC variant '8' in 4th.
    let s = "00000000-0000-7000-8000-000000000000";

    let u: Uuid128 = s.parse().unwrap();
    assert_eq!(u.uuid_version(), 7);

    let out = uuid_format(&u);
    assert_eq!(s, out);

    let u2: Uuid128 = out.parse().unwrap();
    assert_eq!(u, u2);
}

#[test]
fn mod_test_uuid_parse_format_roundtrip() {
    // Correct 8-4-4-4-12 layout; version nibble '7' at start of 3rd group; RFC variant '8' in 4th.
    let s = "00000000-0000-7000-8000-000000000000";

    let u = uuid_parse(s).unwrap();
    assert_eq!(u.uuid_version(), 7);

    let out = uuid_format(&u);

    let u2 = uuid_parse(&out).unwrap();
    assert_eq!(u, u2);

    let bad = "zzzzzzzz-zzzz-zzzz-zzzz-zzzzzzzzzzzz";
    assert!(uuid_parse(bad).is_err());
}

#[test]
fn test_bad_uuid_parse() {
    let invalid_hex = "zzzzzzzz-zzzz-zzzz-zzzz-zzzzzzzzzzzz"; // invalid hex
    assert!(matches!(
        invalid_hex.parse::<Uuid128>(),
        Err(UuidParseError::InvalidHex)
    ));

    let invalid_layout = "000000000-000-7000-8000-000000000000"; // invalid layout
    assert!(matches!(
        invalid_layout.parse::<Uuid128>(),
        Err(UuidParseError::InvalidHex)
    ));

    let too_short = "00000000-0000-7000-8000-00000000000"; // too short
    assert!(matches!(
        too_short.parse::<Uuid128>(),
        Err(UuidParseError::InvalidLength)
    ));

    let too_long = "00000000-0000-7000-8000-0000000000000"; // too long
    assert!(matches!(
        too_long.parse::<Uuid128>(),
        Err(UuidParseError::InvalidLength)
    ));
}

#[test]
fn parse_accepts_uppercase_formats_lowercase() {
    let s = "550E8400-E29B-41D4-A716-446655440000";
    let u = uuid_parse(s).unwrap();
    assert_eq!(uuid_format(&u), "550e8400-e29b-41d4-a716-446655440000");
}

#[test]
fn parse_rejects_bad_markers() {
    // Well-shaped text, but version 1 is neither 4 nor 7.
    let bad_version = "00000000-0000-1000-8000-000000000000";
    assert!(matches!(
        uuid_parse(bad_version),
        Err(UuidParseError::InvalidHex)
    ));
    // Well-shaped text, version 7, but variant bits are 00.
    let bad_variant = "00000000-0000-7000-0000-000000000000";
    assert!(matches!(
        uuid_parse(bad_variant),
        Err(UuidParseError::InvalidHex)
    ));
}

#[test]
fn empty_formats_to_zero_string() {
    let u = Uuid128::empty();
    assert_eq!(uuid_format(&u), "00000000-0000-7000-8000-000000000000");
}

#[test]
fn end_to_end_scenario() {
    let s = "00000000-0000-7000-8000-000000000000";
    let key = UuidV47Key::new(0x0123456789abcdef, 0xfedcba9876543210);

    let v7 = uuid_parse(s).unwrap();
    assert_eq!(v7.uuid_version(), 7);
    let b = v7.to_bytes();
    assert_eq!(b[6] & 0x0F, 0);
    assert_eq!(b[7], 0);
    assert_eq!(b[8] & 0x3F, 0);
    assert_eq!(&b[9..16], &[0u8; 7]);

    let facade = v7.encode_as_v4facade(&key);
    assert_eq!(facade.uuid_version(), 4);
    let fb = facade.to_bytes();
    assert_eq!(fb[8] & 0xC0, 0x80);
    // The zero random payload passes through unchanged.
    assert_eq!(fb[6] & 0x0F, 0);
    assert_eq!(fb[7], 0);
    assert_eq!(fb[8] & 0x3F, 0);
    assert_eq!(&fb[9..16], &[0u8; 7]);
    // The original timestamp is zero, so the stored field is the keystream.
    assert_eq!(uuid_format(&facade), "22d97126-9609-4000-8000-000000000000");

    // Decoding the formatted facade restores the original text exactly.
    let back = uuid_parse(&uuid_format(&facade))
        .unwrap()
        .decode_from_v4facade(&key);
    assert_eq!(back, v7);
    assert_eq!(uuid_format(&back), s);
}

#[test]
fn wrong_key_diverges() {
    let key1 = UuidV47Key::new(0x0123456789abcdef, 0xfedcba9876543210);
    let key2 = UuidV47Key::new(0x0123456789abcdee, 0xfedcba9876543210);
    let u = uuid_parse("017f22e2-79b0-7cc3-98c4-dc0c0c07398f").unwrap();
    let facade = u.encode_as_v4facade(&key1);
    assert_ne!(facade.decode_from_v4facade(&key2), u);
    assert_eq!(facade.decode_from_v4facade(&key1), u);
}

#[test]
fn parse_rejects_hyphen_shifted_by_one() {
    // 36 characters, but every hyphen sits one position early.
    let shifted = "0000000-0000-7000-8000-0000000000000";
    assert!(matches!(
        uuid_parse(shifted),
        Err(UuidParseError::InvalidHex)
    ));
}
