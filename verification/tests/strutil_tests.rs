use rust_quiz::ip::format_ipv4;
use rust_quiz::ip::parse_ipv4;
use rust_quiz::strutil::eq_ignore_case;
use rust_quiz::strutil::join_comma;
use rust_quiz::strutil::tokenize;
use rust_quiz::strutil::trim;
use rust_quiz::strutil::usize_to_string;

#[test]
fn test_trim_strips_surrounding_whitespace() {
    assert_eq!(trim("  hello  "), "hello");
    assert_eq!(trim("\t a b \n"), "a b");
    assert_eq!(trim("plain"), "plain");
    assert_eq!(trim("   "), "");
    assert_eq!(trim(""), "");
}

#[test]
fn test_tokenize_splits_on_whitespace() {
    assert_eq!(tokenize("kick bob"), vec!["kick", "bob"]);
    assert_eq!(tokenize("  view   all  "), vec!["view", "all"]);
    assert_eq!(tokenize(""), Vec::<String>::new());
    assert_eq!(tokenize(" \t "), Vec::<String>::new());
    assert_eq!(tokenize("one"), vec!["one"]);
}

#[test]
fn test_eq_ignore_case_folds_ascii_capitals_only() {
    assert!(eq_ignore_case("START", "start"));
    assert!(eq_ignore_case("StArT", "start"));
    assert!(eq_ignore_case("start", "start"));
    assert!(!eq_ignore_case("star", "start"));
    assert!(!eq_ignore_case("starts", "start"));
}

#[test]
fn test_usize_to_string_writes_decimal() {
    assert_eq!(usize_to_string(0), "0");
    assert_eq!(usize_to_string(7), "7");
    assert_eq!(usize_to_string(10), "10");
    assert_eq!(usize_to_string(905), "905");
    assert_eq!(usize_to_string(123456), "123456");
}

#[test]
fn test_join_comma_separates_items() {
    assert_eq!(join_comma(&vec![]), "");
    assert_eq!(join_comma(&vec!["a".to_string()]), "a");
    assert_eq!(
        join_comma(&vec!["a".to_string(), "b".to_string(), "c".to_string()]),
        "a, b, c"
    );
}

#[test]
fn test_parse_ipv4_accepts_dotted_quads() {
    assert_eq!(parse_ipv4("127.0.0.1"), Some(0x7F000001));
    assert_eq!(parse_ipv4("0.0.0.0"), Some(0));
    assert_eq!(parse_ipv4("255.255.255.255"), Some(0xFFFFFFFF));
    assert_eq!(parse_ipv4("192.168.1.42"), Some((192 << 24) | (168 << 16) | (1 << 8) | 42));
}

#[test]
fn test_parse_ipv4_rejects_bad_forms() {
    assert_eq!(parse_ipv4(""), None);
    assert_eq!(parse_ipv4("1.2.3"), None);
    assert_eq!(parse_ipv4("1.2.3.4.5"), None);
    assert_eq!(parse_ipv4("256.1.1.1"), None);
    assert_eq!(parse_ipv4("01.2.3.4"), None); // leading zero
    assert_eq!(parse_ipv4("a.b.c.d"), None);
    assert_eq!(parse_ipv4("1..2.3"), None);
    assert_eq!(parse_ipv4("1.2.3."), None);
    assert_eq!(parse_ipv4(".1.2.3"), None);
}

#[test]
fn test_format_ipv4_round_trips() {
    assert_eq!(format_ipv4(0x7F000001), "127.0.0.1");
    assert_eq!(format_ipv4(0), "0.0.0.0");
    assert_eq!(format_ipv4(0xFFFFFFFF), "255.255.255.255");
    let v = parse_ipv4("10.20.30.40").unwrap();
    assert_eq!(parse_ipv4(&format_ipv4(v)), Some(v));
}
