use blackjack_table::text::{push_decimal, push_digits, same_text};
use blackjack_table::wager::parse_bet;

#[test]
fn parse_bet_reads_plain_numbers() {
    assert_eq!(parse_bet(b"20"), Some(20));
    assert_eq!(parse_bet(b"0"), Some(0));
    assert_eq!(parse_bet(b"007"), Some(7));
    assert_eq!(parse_bet(b"4294967295"), Some(u32::MAX));
}

#[test]
fn parse_bet_ignores_white_space_around() {
    assert_eq!(parse_bet(b"50\n"), Some(50));
    assert_eq!(parse_bet(b"  50\r\n"), Some(50));
    assert_eq!(parse_bet(b"\t 13 \x0b\x0c"), Some(13));
}

#[test]
fn parse_bet_accepts_a_plus_sign() {
    assert_eq!(parse_bet(b"+5"), Some(5));
    assert_eq!(parse_bet(b" +5\n"), Some(5));
}

#[test]
fn parse_bet_refuses_what_is_no_number() {
    assert_eq!(parse_bet(b""), None);
    assert_eq!(parse_bet(b"\n"), None);
    assert_eq!(parse_bet(b"   "), None);
    assert_eq!(parse_bet(b"+"), None);
    assert_eq!(parse_bet(b"++5"), None);
    assert_eq!(parse_bet(b"-5"), None);
    assert_eq!(parse_bet(b"abc"), None);
    assert_eq!(parse_bet(b"12a"), None);
    assert_eq!(parse_bet(b"1 2"), None);
    assert_eq!(parse_bet(b"5+"), None);
    assert_eq!(parse_bet(b"1.5"), None);
    assert_eq!(parse_bet("٣".as_bytes()), None);
}

#[test]
fn parse_bet_refuses_numbers_beyond_u32() {
    assert_eq!(parse_bet(b"4294967296"), None);
    assert_eq!(parse_bet(b"99999999999999999999999999"), None);
    assert_eq!(parse_bet(b"0000000000000000000000001"), Some(1));
}

#[test]
fn push_decimal_writes_signed_numbers() {
    let mut out = String::from("x=");
    push_decimal(&mut out, 0);
    assert_eq!(out, "x=0");
    push_decimal(&mut out, -45);
    assert_eq!(out, "x=0-45");
    let mut min = String::new();
    push_decimal(&mut min, i64::MIN);
    assert_eq!(min, "-9223372036854775808");
    let mut max = String::new();
    push_decimal(&mut max, i64::MAX);
    assert_eq!(max, "9223372036854775807");
}

#[test]
fn push_digits_writes_without_leading_zeros() {
    let mut out = String::new();
    push_digits(&mut out, 9);
    push_digits(&mut out, 10);
    push_digits(&mut out, 1234567890);
    assert_eq!(out, "9101234567890");
    let mut max = String::new();
    push_digits(&mut max, u64::MAX);
    assert_eq!(max, "18446744073709551615");
}

#[test]
fn same_text_compares_characters() {
    assert!(same_text("", ""));
    assert!(same_text("127.0.0.1:80", "127.0.0.1:80"));
    assert!(same_text("♠", "♠"));
    assert!(!same_text("♠", "♥"));
    assert!(!same_text("a", "ab"));
    assert!(!same_text("ab", "a"));
    assert!(!same_text("ab", "ac"));
}
