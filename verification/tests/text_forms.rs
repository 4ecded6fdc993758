use query_sandbox::authenticator::same_bytes;
use query_sandbox::decimal::{from_decimal, to_decimal};
use query_sandbox::hex::to_hex;

#[test]
fn decimal_text_of_small_and_large_numbers() {
    assert_eq!(to_decimal(0), "0");
    assert_eq!(to_decimal(7), "7");
    assert_eq!(to_decimal(10), "10");
    assert_eq!(to_decimal(65536), "65536");
    assert_eq!(to_decimal(u64::MAX), "18446744073709551615");
}

#[test]
fn decimal_text_is_read_back() {
    for n in [0u64, 1, 9, 10, 99, 100, 12345, 1 << 40, u64::MAX - 1, u64::MAX] {
        assert_eq!(from_decimal(&to_decimal(n)), Some(n));
    }
}

#[test]
fn only_the_one_text_of_a_number_is_read() {
    assert_eq!(from_decimal(""), None);
    assert_eq!(from_decimal("00"), None);
    assert_eq!(from_decimal("01"), None);
    assert_eq!(from_decimal("+1"), None);
    assert_eq!(from_decimal("-1"), None);
    assert_eq!(from_decimal(" 1"), None);
    assert_eq!(from_decimal("1 "), None);
    assert_eq!(from_decimal("12a"), None);
    assert_eq!(from_decimal("1.5"), None);
    assert_eq!(from_decimal("\u{0661}"), None);
    assert_eq!(from_decimal("0"), Some(0));
}

#[test]
fn numbers_above_the_largest_are_not_read() {
    assert_eq!(from_decimal("18446744073709551615"), Some(u64::MAX));
    assert_eq!(from_decimal("18446744073709551616"), None);
    assert_eq!(from_decimal("99999999999999999999"), None);
    assert_eq!(from_decimal("184467440737095516150"), None);
}

#[test]
fn hexadecimal_text_has_two_lower_case_digits_for_each_byte() {
    assert_eq!(to_hex(&[]), "");
    assert_eq!(to_hex(&[0x00]), "00");
    assert_eq!(to_hex(&[0x0f, 0xf0]), "0ff0");
    assert_eq!(to_hex(&[0xde, 0xad, 0xbe, 0xef, 0x01, 0x9a]), "deadbeef019a");
}

#[test]
fn byte_strings_are_the_same_only_if_every_byte_is() {
    assert!(same_bytes(b"", b""));
    assert!(same_bytes(b"abc", b"abc"));
    assert!(!same_bytes(b"abc", b"abd"));
    assert!(!same_bytes(b"xbc", b"abc"));
    assert!(!same_bytes(b"abc", b"ab"));
    assert!(!same_bytes(b"", b"a"));
    assert!(!same_bytes(&[0x01, 0x02], &[0x02, 0x01]));
}
