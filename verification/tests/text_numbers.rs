use rust_sql::numeric::{is_float_literal, parse_i64, parse_unsigned};
use rust_sql::text::{decimal_string, owned, push_debug_bytes, push_decimal};
use rust_sql::wire::{bytes_equal, find_nul, read_be_u32, read_le_u16, read_le_u24, to_i16, xor_slices};

#[test]
fn unsigned_decimal_text() {
    assert_eq!(parse_unsigned(b"0", u64::MAX), Some(0));
    assert_eq!(parse_unsigned(b"+42", u64::MAX), Some(42));
    assert_eq!(parse_unsigned(b"18446744073709551615", u64::MAX), Some(u64::MAX));
    assert_eq!(parse_unsigned(b"18446744073709551616", u64::MAX), None);
    assert_eq!(parse_unsigned(b"256", 255), None);
    assert_eq!(parse_unsigned(b"255", 255), Some(255));
    assert_eq!(parse_unsigned(b"", 255), None);
    assert_eq!(parse_unsigned(b"+", 255), None);
    assert_eq!(parse_unsigned(b"-1", 255), None);
    assert_eq!(parse_unsigned(b"1a", 255), None);
}

#[test]
fn signed_decimal_text() {
    assert_eq!(parse_i64(b"-9223372036854775808"), Some(i64::MIN));
    assert_eq!(parse_i64(b"9223372036854775807"), Some(i64::MAX));
    assert_eq!(parse_i64(b"9223372036854775808"), None);
    assert_eq!(parse_i64(b"-9223372036854775809"), None);
    assert_eq!(parse_i64(b"+5"), Some(5));
    assert_eq!(parse_i64(b"-"), None);
    assert_eq!(parse_i64(b""), None);
    assert_eq!(parse_i64(b" 1"), None);
}

#[test]
fn float_grammar() {
    for ok in ["3.14", "-0.5", "+1e10", "1.", ".5", "1E-3", "inf", "-Infinity", "NaN", "nan", "0"] {
        assert!(is_float_literal(ok.as_bytes()), "{}", ok);
        assert!(ok.parse::<f64>().is_ok());
    }
    for bad in ["", ".", "e5", "1e", "1.2.3", "abc", "1e+", "--1", "infinit"] {
        assert!(!is_float_literal(bad.as_bytes()), "{}", bad);
        assert!(bad.parse::<f64>().is_err());
    }
}

#[test]
fn decimal_rendering() {
    assert_eq!(decimal_string(0), "0");
    assert_eq!(decimal_string(1045), "1045");
    assert_eq!(decimal_string(u64::MAX), "18446744073709551615");
    let mut s = owned("n=");
    push_decimal(&mut s, 7);
    assert_eq!(s, "n=7");
}

#[test]
fn debug_renderings() {
    let mut s = owned("");
    push_debug_bytes(&mut s, &[1, 20, 255], false);
    assert_eq!(s, format!("{:?}", vec![1u8, 20, 255]));
    let mut h = owned("");
    push_debug_bytes(&mut h, &[1, 0xab, 255], true);
    assert_eq!(h, format!("{:02X?}", vec![1u8, 0xab, 255]));
    let mut e = owned("");
    push_debug_bytes(&mut e, &[], true);
    assert_eq!(e, "[]");
}

#[test]
fn integer_reading() {
    assert_eq!(read_be_u32(&[0, 1, 2, 3], 0), 0x0001_0203);
    assert_eq!(read_le_u16(&[9, 1, 2], 1), 0x0201);
    assert_eq!(read_le_u24(&[1, 2, 3], 0), 0x03_0201);
    assert_eq!(to_i16(0xffff), -1);
    assert_eq!(to_i16(0x7fff), i16::MAX);
    assert_eq!(find_nul(b"ab\0c\0", 0), Some(2));
    assert_eq!(find_nul(b"ab\0c\0", 3), Some(4));
    assert_eq!(find_nul(b"abc", 0), None);
    assert_eq!(xor_slices(&[1, 2, 3], &[3, 2]), vec![2, 0]);
    assert!(bytes_equal(b"abc", b"abc"));
    assert!(!bytes_equal(b"abc", b"abd"));
    assert!(!bytes_equal(b"ab", b"abc"));
}
