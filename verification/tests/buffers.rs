use seedle_parser::bytes::{Edit, FromBytes};
use seedle_parser::encode::InfallibleEncoder;

#[test]
fn expect_edit_pads_with_zeroes() {
    let mut buf = [0xFFu8; 8];
    buf[..].edit("hi");
    assert_eq!(&buf, b"hi\0\0\0\0\0\0");
    buf[..].edit("hello");
    assert_eq!(&buf, b"hello\0\0\0");
}

#[test]
fn expect_from_bytes_stops_at_nul() {
    let buf: [u8; 8] = *b"hi\0\0\0\0\0\0";
    assert_eq!(buf.from_bytes(), Ok("hi"));
    let full: [u8; 2] = *b"ok";
    assert_eq!(full.from_bytes(), Ok("ok"));
    let none: Option<[u8; 4]> = None;
    assert_eq!(none.from_bytes(), Ok(""));
    let some: Option<[u8; 4]> = Some(*b"ab\0\0");
    assert_eq!(some.from_bytes(), Ok("ab"));
    let borrowed: Option<&[u8]> = Some(b"xyz\0");
    assert_eq!(borrowed.from_bytes(), Ok("xyz"));
}

#[test]
fn expect_from_bytes_rejects_bad_utf8() {
    let bad: [u8; 3] = [0xFF, 0xFE, 0x01];
    assert!(bad.from_bytes().is_err());
}

#[test]
fn expect_encoder_collects_writes() {
    let mut enc = InfallibleEncoder::new(16);
    enc.write_all(b"abc");
    enc.write_all(b"");
    enc.write_all(b"de");
    assert_eq!(enc.into_inner(), b"abcde".to_vec());
}
