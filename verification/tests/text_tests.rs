use lan_transmission::text::{decimal_string, find_separator, parse_decimal, same_text, starts_with};

#[test]
fn decimal_string_writes_numbers() {
    assert_eq!(decimal_string(0), "0");
    assert_eq!(decimal_string(7), "7");
    assert_eq!(decimal_string(10), "10");
    assert_eq!(decimal_string(8080), "8080");
    assert_eq!(decimal_string(u64::MAX), "18446744073709551615");
}

#[test]
fn parse_decimal_follows_std_parse() {
    let cases = [
        "0", "42", "+42", "007", "", "+", "-1", " 1", "1 ", "12a", "255", "256",
        "18446744073709551615", "18446744073709551616", "99999999999999999999999",
    ];
    for c in cases {
        assert_eq!(parse_decimal(c, u64::MAX), c.parse::<u64>().ok(), "u64 {:?}", c);
        assert_eq!(parse_decimal(c, 255), c.parse::<u8>().ok().map(|v| v as u64), "u8 {:?}", c);
    }
}

#[test]
fn parse_decimal_round_trips() {
    for n in [0u64, 1, 9, 10, 99, 100, 255, 65535, 1 << 40, u64::MAX] {
        assert_eq!(parse_decimal(&decimal_string(n), u64::MAX), Some(n));
    }
}

#[test]
fn starts_with_and_same_text() {
    assert!(starts_with("192.168.1.2", "192.168."));
    assert!(starts_with("abc", ""));
    assert!(!starts_with("19", "192."));
    assert!(!starts_with("100.64.0.1", "10."));
    assert!(same_text("announce", "announce"));
    assert!(!same_text("announce", "announced"));
    assert!(same_text("", ""));
}

#[test]
fn find_separator_finds_field_ends() {
    assert_eq!(find_separator("10-20", '-', 0), 2);
    assert_eq!(find_separator("10-20", '-', 3), 5);
    assert_eq!(find_separator("1020", '-', 0), 4);
    assert_eq!(find_separator("a.b.c", '.', 2), 3);
}
