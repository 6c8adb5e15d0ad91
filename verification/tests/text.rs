use sysmon::text::{decimal_text, digit, escape_spaces, push_decimal};

#[test]
fn digits_are_the_ten_numerals() {
    let all: String = (0u8..10).map(digit).collect();
    assert_eq!(all, "0123456789");
}

#[test]
fn decimal_of_zero_is_one_digit() {
    assert_eq!(decimal_text(0), "0");
}

#[test]
fn decimal_has_no_leading_zero() {
    assert_eq!(decimal_text(7), "7");
    assert_eq!(decimal_text(10), "10");
    assert_eq!(decimal_text(1700000000123), "1700000000123");
}

#[test]
fn decimal_reaches_the_largest_number() {
    assert_eq!(decimal_text(u128::MAX), "340282366920938463463374607431768211455");
    assert_eq!(decimal_text(u64::MAX as u128), "18446744073709551615");
}

#[test]
fn decimal_is_appended_to_what_stands() {
    let mut out = String::from("t=");
    push_decimal(&mut out, 42);
    assert_eq!(out, "t=42");
}

#[test]
fn decimal_agrees_with_the_standard_formatting() {
    for n in [0u128, 1, 9, 10, 11, 99, 100, 101, 12345678901234567890, 1 << 100] {
        assert_eq!(decimal_text(n), format!("{}", n));
    }
}

#[test]
fn spaces_are_escaped_with_a_backslash() {
    assert_eq!(escape_spaces("CPU Core 0"), "CPU\\ Core\\ 0");
}

#[test]
fn text_without_spaces_is_kept() {
    assert_eq!(escape_spaces("coretemp"), "coretemp");
    assert_eq!(escape_spaces(""), "");
    assert_eq!(escape_spaces("a,b=c\\d"), "a,b=c\\d");
}

#[test]
fn every_space_is_escaped() {
    assert_eq!(escape_spaces(" "), "\\ ");
    assert_eq!(escape_spaces("  a  "), "\\ \\ a\\ \\ ");
    assert_eq!(escape_spaces("température du cœur"), "température\\ du\\ cœur");
}

#[test]
fn escaped_text_has_no_bare_space() {
    let escaped: Vec<char> = escape_spaces(" x y  z ").chars().collect();
    for (i, c) in escaped.iter().enumerate() {
        if *c == ' ' {
            assert!(i > 0);
            assert_eq!(escaped[i - 1], '\\');
        }
    }
}
