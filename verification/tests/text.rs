//! Bytes, numbers and text.

use kumo_userland::bytes::{
    append, bytes_equal, find_byte, put_u16, put_u32, put_u64, read_u16, read_u32, read_u64,
};
use kumo_userland::numerals::{push_decimal, push_decimal_right, push_hex, push_hex_wide};
use kumo_userland::programs::choose_path;
use kumo_userland::text::{append_text, text_is, to_bytes, to_chars, to_string};

#[test]
fn fields_are_little_endian() {
    let mut buf = [0u8; 14];
    put_u16(&mut buf, 0, 0x0102);
    put_u32(&mut buf, 2, 0x0304_0506);
    put_u64(&mut buf, 6, 0x0708_090a_0b0c_0d0e);
    assert_eq!(buf, [2, 1, 6, 5, 4, 3, 14, 13, 12, 11, 10, 9, 8, 7]);
    assert_eq!(read_u16(&buf, 0), 0x0102);
    assert_eq!(read_u32(&buf, 2), 0x0304_0506);
    assert_eq!(read_u64(&buf, 6), 0x0708_090a_0b0c_0d0e);
}

#[test]
fn bytes_are_found_and_compared() {
    assert_eq!(find_byte(b"a/b/c", b'/'), 1);
    assert_eq!(find_byte(b"abc", b'/'), 3);
    assert!(bytes_equal(b"ab", b"ab"));
    assert!(!bytes_equal(b"ab", b"ac"));
    assert!(!bytes_equal(b"ab", b"abc"));
    let mut out = b"ab".to_vec();
    append(&mut out, b"cd");
    assert_eq!(out, b"abcd");
}

#[test]
fn numbers_are_written_in_their_base() {
    let mut out = Vec::new();
    push_decimal(&mut out, 0);
    out.push(b' ');
    push_decimal(&mut out, u64::MAX);
    out.push(b' ');
    push_decimal_right(&mut out, 42, 5);
    out.push(b' ');
    push_hex(&mut out, 0xc0ffee);
    out.push(b' ');
    push_hex_wide(&mut out, 0xa, 4);
    assert_eq!(out, b"0 18446744073709551615    42 0xc0ffee 000a");
}

#[test]
fn characters_and_strings_convert_both_ways() {
    assert_eq!(to_chars("a雲ü"), vec!['a', '雲', 'ü']);
    assert_eq!(to_string(&vec!['a', '雲', 'ü']), "a雲ü");
    assert_eq!(to_string(&vec![]), "");
    assert_eq!(to_bytes("雲"), "雲".as_bytes());
    let mut out = b"x".to_vec();
    append_text(&mut out, "雲");
    assert_eq!(out, "x雲".as_bytes());
    assert!(text_is("雲", "雲"));
    assert!(!text_is("雲", "雪"));
}

#[test]
fn only_valid_encodings_are_text() {
    let args = |path: &[u8]| vec![b"cat".to_vec(), path.to_vec()];
    assert!(choose_path(&args("雲".as_bytes())).is_ok());
    assert!(choose_path(&args(&"雲".as_bytes()[..2])).is_err());
    assert!(choose_path(&args(&[0xc0, 0x80])).is_err());
    assert!(choose_path(&args(&[0xed, 0xa0, 0x80])).is_err());
}
