use uuid47::siphash24;

// Reference vectors for SipHash-2-4: key bytes 00..0f read as two
// little-endian words, message = the first n bytes of 00, 01, 02, ...
const K0: u64 = 0x0706050403020100;
const K1: u64 = 0x0f0e0d0c0b0a0908;

fn message(n: usize) -> Vec<u8> {
    (0..n as u8).collect()
}

#[test]
fn siphash24_reference_vector_empty() {
    assert_eq!(siphash24(&[], K0, K1), 0x726fdb47dd0e0e31);
}

#[test]
fn siphash24_reference_vectors_short() {
    assert_eq!(siphash24(&message(1), K0, K1), 0x74f839c593dc67fd);
    assert_eq!(siphash24(&message(2), K0, K1), 0x0d6c8009d9a94f5a);
    assert_eq!(siphash24(&message(3), K0, K1), 0x85676696d7fb7e2d);
}

#[test]
fn siphash24_reference_vectors_block_boundary() {
    // 7 bytes: no full block; 8 bytes: exactly one; 15 bytes: one plus tail.
    assert_eq!(siphash24(&message(7), K0, K1), 0xab0200f58b01d137);
    assert_eq!(siphash24(&message(8), K0, K1), 0x93f5f5799a932462);
    assert_eq!(siphash24(&message(15), K0, K1), 0xa129ca6149be45e5);
}

#[test]
fn siphash24_is_deterministic_and_key_sensitive() {
    let msg = [0x42u8; 10];
    let a = siphash24(&msg, 1, 2);
    let b = siphash24(&msg, 1, 2);
    assert_eq!(a, b);
    let c = siphash24(&msg, 2, 1);
    assert_ne!(a, c);
}
