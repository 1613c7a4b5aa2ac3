use warframe_api_helper::text::{parse_u32, push_decimal, push_hex, str_contains, trim};

#[test]
fn trim_unicode_whitespace() {
    assert_eq!(trim("  a b\t\n"), "a b");
    assert_eq!(trim("\u{3000}x\u{a0}"), "x");
    assert_eq!(trim("   "), "");
    assert_eq!(trim(""), "");
}

#[test]
fn parse_decimal_u32() {
    let p = |s: &str| parse_u32(&s.chars().collect::<Vec<char>>());
    assert_eq!(p("0"), Some(0));
    assert_eq!(p("4294967295"), Some(u32::MAX));
    assert_eq!(p("4294967296"), None);
    assert_eq!(p("+12"), Some(12));
    assert_eq!(p("+"), None);
    assert_eq!(p(""), None);
    assert_eq!(p("-1"), None);
    assert_eq!(p("1 2"), None);
    assert_eq!(p("007"), Some(7));
}

#[test]
fn hex_and_decimal_formatting() {
    let mut s = String::from("0x");
    push_hex(&mut s, 0);
    assert_eq!(s, "0x0");
    let mut s = String::new();
    push_hex(&mut s, u64::MAX);
    assert_eq!(s, "ffffffffffffffff");
    let mut s = String::new();
    push_decimal(&mut s, 1234567890);
    assert_eq!(s, "1234567890");
}

#[test]
fn substring_search() {
    assert!(str_contains("abc", ""));
    assert!(str_contains("abc", "bc"));
    assert!(!str_contains("abc", "cb"));
}
