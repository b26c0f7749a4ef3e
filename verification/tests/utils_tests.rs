use uuid47::hexval;
use uuid47::read_48_big_endian;
use uuid47::write_48_big_endian;

#[test]
fn utils_test_rd_wr_48() {
    let mut buf = [0u8; 6];
    let v = 0x01_23_45_67_89_ABu64 & 0x0000_FFFF_FFFF_FFFFu64;

    write_48_big_endian(&mut buf, v);

    let r = read_48_big_endian(buf);

    assert_eq!(r, v);
}

#[test]
fn mod_test_rd_wr_48() {
    let mut buf = [0u8; 6];
    let v: u64 = 0x01_23_45_67_89_ABu64 & 0x0000_FFFF_FFFF_FFFFu64;
    write_48_big_endian(&mut buf, v);
    let r: u64 = read_48_big_endian(buf);
    assert_eq!(r, v);
}

#[test]
fn write_48_extracts_big_endian_bytes() {
    let mut buf = [0u8; 6];
    write_48_big_endian(&mut buf, 0x0123_4567_89AB);
    assert_eq!(buf, [0x01, 0x23, 0x45, 0x67, 0x89, 0xAB]);
}

#[test]
fn write_48_ignores_high_16_bits() {
    let mut a = [0u8; 6];
    let mut b = [0u8; 6];
    write_48_big_endian(&mut a, 0x0123_4567_89AB);
    write_48_big_endian(&mut b, 0xFFFF_0123_4567_89AB);
    assert_eq!(a, b);
}

#[test]
fn hexval_decodes_all_digits() {
    assert_eq!(hexval(b'0'), Some(0));
    assert_eq!(hexval(b'9'), Some(9));
    assert_eq!(hexval(b'a'), Some(10));
    assert_eq!(hexval(b'f'), Some(15));
    assert_eq!(hexval(b'A'), Some(10));
    assert_eq!(hexval(b'F'), Some(15));
    assert_eq!(hexval(b'g'), None);
    assert_eq!(hexval(b'G'), None);
    assert_eq!(hexval(b'-'), None);
    assert_eq!(hexval(b' '), None);
}
