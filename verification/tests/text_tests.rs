use cms_dl::text::{contains_char, parse_i32, push_int, remove_all, remove_first_char, trim_str, IntErrorKind};

#[test]
fn trim_drops_surrounding_whitespace() {
    assert_eq!(trim_str("  a b \t\n"), "a b");
    assert_eq!(trim_str("\u{3000}x\u{a0}"), "x");
    assert_eq!(trim_str("   "), "");
    assert_eq!(trim_str(""), "");
    assert_eq!(trim_str("abc"), "abc");
}

#[test]
fn remove_all_drops_every_occurrence() {
    assert_eq!(remove_all("a\u{a0}b\u{a0}\u{a0}c", '\u{a0}'), "abc");
    assert_eq!(remove_all("plain", '\u{a0}'), "plain");
}

#[test]
fn remove_first_char_drops_only_the_first() {
    assert_eq!(remove_first_char("(a)(b)", '('), "a)(b)");
    assert_eq!(remove_first_char("none", '('), "none");
    assert_eq!(remove_first_char("", ')'), "");
}

#[test]
fn contains_char_finds_nul() {
    assert!(contains_char("a\0b", '\0'));
    assert!(!contains_char("ab", '\0'));
}

#[test]
fn parse_i32_reads_signed_decimals() {
    assert_eq!(parse_i32("123"), Ok(123));
    assert_eq!(parse_i32("-5"), Ok(-5));
    assert_eq!(parse_i32("+7"), Ok(7));
    assert_eq!(parse_i32("2147483647"), Ok(i32::MAX));
    assert_eq!(parse_i32("-2147483648"), Ok(i32::MIN));
    assert_eq!(parse_i32("007"), Ok(7));
}

#[test]
fn parse_i32_reports_each_error_kind() {
    assert_eq!(parse_i32(""), Err(IntErrorKind::Empty));
    assert_eq!(parse_i32("+"), Err(IntErrorKind::InvalidDigit));
    assert_eq!(parse_i32("-"), Err(IntErrorKind::InvalidDigit));
    assert_eq!(parse_i32("12a"), Err(IntErrorKind::InvalidDigit));
    assert_eq!(parse_i32(" 1"), Err(IntErrorKind::InvalidDigit));
    assert_eq!(parse_i32("2147483648"), Err(IntErrorKind::PosOverflow));
    assert_eq!(parse_i32("-2147483649"), Err(IntErrorKind::NegOverflow));
    assert_eq!(parse_i32("99999999999x"), Err(IntErrorKind::PosOverflow));
}

#[test]
fn parse_i32_agrees_with_std() {
    for s in ["0", "-0", "+0", "42", "-42", "4294967296", "-", "1_000", "١٢", "+-1", "--1"] {
        let ours = parse_i32(s);
        let std = s.parse::<i32>();
        match (ours, std) {
            (Ok(a), Ok(b)) => assert_eq!(a, b, "{s}"),
            (Err(_), Err(_)) => {}
            (a, b) => panic!("{s}: {a:?} vs {b:?}"),
        }
    }
}

#[test]
fn push_int_renders_like_display() {
    for i in [0, 7, 10, 34, 2488, -1, -90, i32::MAX, i32::MIN] {
        let mut s = String::from("x");
        push_int(&mut s, i);
        assert_eq!(s, format!("x{}", i));
    }
}
