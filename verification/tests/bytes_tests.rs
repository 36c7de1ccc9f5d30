//! Byte utilities: substring search, trimming, tokenizing and decimal
//! parsing.

use nginx_supervisor::bytes::contains_bytes;
use nginx_supervisor::bytes::parse_u64;
use nginx_supervisor::bytes::starts_with_bytes;
use nginx_supervisor::bytes::tokens_of;
use nginx_supervisor::bytes::trim_bytes;

fn text(s: &str) -> Vec<u8> {
    s.as_bytes().to_vec()
}

#[test]
fn substring_search_is_plain_containment() {
    assert!(contains_bytes(&text("error: disk full"), &text("disk")));
    assert!(contains_bytes(&text("abc"), &text("")));
    assert!(contains_bytes(&text("abc"), &text("abc")));
    assert!(!contains_bytes(&text("abc"), &text("abcd")));
    assert!(!contains_bytes(&text("abab"), &text("aa")));
}

#[test]
fn prefix_check_looks_only_at_the_start() {
    assert!(starts_with_bytes(&text("Active connections: 3"), &text("Active connections:")));
    assert!(!starts_with_bytes(&text(" Active connections: 3"), &text("Active connections:")));
}

#[test]
fn trimming_strips_ascii_whitespace_on_both_ends() {
    assert_eq!(trim_bytes(&text("  291 \r\n")), text("291"));
    assert_eq!(trim_bytes(&text("\t\n")), text(""));
    assert_eq!(trim_bytes(&text("a b")), text("a b"));
}

#[test]
fn tokens_split_on_whitespace_runs() {
    let ts = tokens_of(&text(" 16630948  16630948\t31070465 "));
    let views: Vec<Vec<u8>> = ts;
    assert_eq!(views, vec![text("16630948"), text("16630948"), text("31070465")]);
    assert_eq!(tokens_of(&text("   ")), Vec::<Vec<u8>>::new());
}

#[test]
fn decimal_parsing_accepts_exactly_digit_strings() {
    assert_eq!(parse_u64(&text("0")), Some(0));
    assert_eq!(parse_u64(&text("291")), Some(291));
    assert_eq!(parse_u64(&text("18446744073709551615")), Some(u64::MAX));
    assert_eq!(parse_u64(&text("18446744073709551616")), None);
    assert_eq!(parse_u64(&text("")), None);
    assert_eq!(parse_u64(&text("12a")), None);
    assert_eq!(parse_u64(&text("-1")), None);
    assert_eq!(parse_u64(&text(" 1")), None);
}
