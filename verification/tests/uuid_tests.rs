use uuid47::Uuid128;
use uuid47::UuidV47Key;
use uuid47::UuidValidationError;

/// Builds a version-7 identifier from a 48-bit timestamp, 12 random bits
/// and 62 random bits.
fn craft_v7(ts_ms_48: u64, rand_a_12: u16, rand_b_62: u64) -> Uuid128 {
    let mut b = [0u8; 16];
    let ts = ts_ms_48 & 0x0000_FFFF_FFFF_FFFF;
    b[0] = (ts >> 40) as u8;
    b[1] = (ts >> 32) as u8;
    b[2] = (ts >> 24) as u8;
    b[3] = (ts >> 16) as u8;
    b[4] = (ts >> 8) as u8;
    b[5] = ts as u8;
    b[6] = 0x70 | ((rand_a_12 >> 8) as u8 & 0x0F);
    b[7] = (rand_a_12 & 0xFF) as u8;
    b[8] = 0x80 | ((rand_b_62 >> 56) as u8 & 0x3F);
    for i in 0..7 {
        b[9 + i] = ((rand_b_62 >> (8 * (6 - i))) & 0xFF) as u8;
    }
    Uuid128::from_bytes(b).expect("crafted bytes must validate")
}

#[test]
fn test_version_variant() {
    let mut u = Uuid128::empty();

    u.set_version(7);
    assert_eq!(u.uuid_version(), 7);

    u.set_version(4);
    assert_eq!(u.uuid_version(), 4);

    u.set_variant_rfc4122();
    assert_eq!(u.to_bytes()[8] & 0xC0, 0x80);
}

#[test]
fn test_encode_decode_roundtrip() {
    let key = UuidV47Key {
        k0: 0x0123456789abcdef,
        k1: 0xfedcba9876543210,
    };

    for i in 0..16 {
        let timestamp = (0x100000 * i as u64) + 123;
        let random = ((0x0AAA ^ (i * 7) as u32) & 0x0FFF) as u16;
        let rb = (0x0123456789ABCDEF ^ (0x1111111111111111 * i as u64)) & ((1 << 62) - 1);

        let u7 = craft_v7(timestamp, random, rb);
        assert_eq!(u7.uuid_version(), 7); // ensure manual creation worked

        let facade = u7.encode_as_v4facade(&key);
        assert_eq!(facade.uuid_version(), 4); // ensure version
        assert_eq!(facade.to_bytes()[8] & 0xC0, 0x80); // ensure RFC variant

        let back = facade.decode_from_v4facade(&key);
        assert_eq!(u7, back);

        let wrong = UuidV47Key {
            k0: key.k0 ^ 0xdeadbeef,
            k1: key.k1 ^ 0x1337,
        };
        let bad = facade.decode_from_v4facade(&wrong);
        assert_ne!(u7, bad);
    }
}

#[test]
fn encode_keeps_random_payload() {
    let key = UuidV47Key::new(7, 9);
    let u7 = craft_v7(0x0185_4321_9876, 0x0ABC, 0x2FED_CBA9_8765_4321);
    let facade = u7.encode_as_v4facade(&key);
    let a = u7.to_bytes();
    let b = facade.to_bytes();
    assert_eq!(a[6] & 0x0F, b[6] & 0x0F);
    assert_eq!(a[7], b[7]);
    assert_eq!(a[8] & 0x3F, b[8] & 0x3F);
    assert_eq!(&a[9..16], &b[9..16]);
}

#[test]
fn from_bytes_rejects_bad_version() {
    let mut b = [0u8; 16];
    b[6] = 0x10; // version 1
    b[8] = 0x80;
    assert!(matches!(
        Uuid128::from_bytes(b),
        Err(UuidValidationError::InvalidVersion)
    ));
}

#[test]
fn from_bytes_rejects_bad_variant() {
    let mut b = [0u8; 16];
    b[6] = 0x40; // version 4
    b[8] = 0x00; // variant bits 00
    assert!(matches!(
        Uuid128::from_bytes(b),
        Err(UuidValidationError::InvalidVariant)
    ));
    b[8] = 0xC0; // variant bits 11
    assert!(matches!(
        Uuid128::from_bytes(b),
        Err(UuidValidationError::InvalidVariant)
    ));
}

#[test]
fn from_bytes_accepts_versions_4_and_7() {
    let mut b = [0u8; 16];
    b[6] = 0x40;
    b[8] = 0xBF; // variant bits 10, all low bits set
    let u = Uuid128::from_bytes(b).unwrap();
    assert_eq!(u.uuid_version(), 4);
    assert_eq!(u.to_bytes(), b);
    b[6] = 0x7F;
    let u = Uuid128::from_bytes(b).unwrap();
    assert_eq!(u.uuid_version(), 7);
}

#[test]
fn key_new_stores_words() {
    let key = UuidV47Key::new(0x1111, 0x2222);
    assert_eq!(key.k0, 0x1111);
    assert_eq!(key.k1, 0x2222);
}
