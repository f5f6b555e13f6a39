use charset::label::is_utf7_label;
use charset::utf7::decode_utf7;
use charset::utf7::utf7_ascii_up_to;
use charset::utf7::utf7_base64_up_to;

#[test]
fn ascii_scanner_stops_at_plus_or_high_byte() {
    assert_eq!(utf7_ascii_up_to(b"abc+def"), 3);
    assert_eq!(utf7_ascii_up_to(b"abc"), 3);
    assert_eq!(utf7_ascii_up_to(b"\x80abc"), 0);
    assert_eq!(utf7_ascii_up_to(b""), 0);
}

#[test]
fn base64_scanner_stops_outside_the_alphabet() {
    assert_eq!(utf7_base64_up_to(b"AOk-"), 3);
    assert_eq!(utf7_base64_up_to(b"+/09azAZ !"), 8);
    assert_eq!(utf7_base64_up_to(b"-"), 0);
    assert_eq!(utf7_base64_up_to(b""), 0);
}

#[test]
fn label_parser_matches_only_utf7_between_whitespace() {
    assert!(is_utf7_label(b"utf-7"));
    assert!(is_utf7_label(b"UTF-7"));
    assert!(is_utf7_label(b"  uTf-7\t "));
    assert!(!is_utf7_label(b"utf-8"));
    assert!(!is_utf7_label(b"utf-7x"));
    assert!(!is_utf7_label(b"xutf-7"));
    assert!(!is_utf7_label(b"utf_7"));
    assert!(!is_utf7_label(b""));
    assert!(!is_utf7_label(b"   "));
}

#[test]
fn decode_utf7_entry_point() {
    let (text, had_errors) = decode_utf7(b"1 + 1 +- 2 +AOk-!");
    assert_eq!(text.as_str(), "1 \u{FFFD} 1 + 2 \u{00E9}!");
    assert!(had_errors);
}
