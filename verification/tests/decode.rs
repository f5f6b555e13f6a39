use charset::text::DecodedText;
use charset::Charset;

#[test]
fn ascii_only_input_is_borrowed_unchanged() {
    let input = b"Hello, world. No shifts here!";
    let (text, had_errors) = Charset::utf7().decode_without_bom_handling(input);
    assert_eq!(text.as_str(), "Hello, world. No shifts here!");
    assert!(!had_errors);
    assert!(matches!(text, DecodedText::Borrowed(_)));
}

#[test]
fn empty_input_is_borrowed_empty() {
    let (text, had_errors) = Charset::utf7().decode_without_bom_handling(b"");
    assert_eq!(text.as_str(), "");
    assert!(!had_errors);
    assert!(matches!(text, DecodedText::Borrowed(_)));
}

#[test]
fn plus_minus_is_a_literal_plus() {
    let (text, had_errors) = Charset::utf7().decode_without_bom_handling(b"+-");
    assert_eq!(text.as_str(), "+");
    assert!(!had_errors);
}

#[test]
fn shifted_run_decodes_known_code_point() {
    let (text, had_errors) = Charset::utf7().decode_without_bom_handling(b"+AOk-");
    assert_eq!(text.as_str(), "\u{00E9}");
    assert!(!had_errors);
}

#[test]
fn shifted_run_inside_ascii_text() {
    let (text, had_errors) = Charset::utf7().decode_without_bom_handling(b"caf+AOk- au lait");
    assert_eq!(text.as_str(), "caf\u{00E9} au lait");
    assert!(!had_errors);
}

#[test]
fn shifted_run_to_end_of_input() {
    let (text, had_errors) = Charset::utf7().decode_without_bom_handling(b"+AOk");
    assert_eq!(text.as_str(), "\u{00E9}");
    assert!(!had_errors);
}

#[test]
fn stray_high_byte_becomes_replacement() {
    let (text, had_errors) = Charset::utf7().decode_without_bom_handling(b"A\x80B");
    assert_eq!(text.as_str(), "A\u{FFFD}B");
    assert!(had_errors);
}

#[test]
fn plus_at_end_of_input_is_malformed() {
    let (text, had_errors) = Charset::utf7().decode_without_bom_handling(b"+");
    assert_eq!(text.as_str(), "\u{FFFD}");
    assert!(had_errors);
}

#[test]
fn plus_before_non_base64_byte_is_malformed_and_byte_kept() {
    let (text, had_errors) = Charset::utf7().decode_without_bom_handling(b"+!");
    assert_eq!(text.as_str(), "\u{FFFD}!");
    assert!(had_errors);
}

#[test]
fn surrogate_pair_decodes_to_supplementary_code_point() {
    let (text, had_errors) = Charset::utf7().decode_without_bom_handling(b"+2AHcNw-");
    assert_eq!(text.as_str(), "\u{10437}");
    assert!(!had_errors);
}

#[test]
fn unpaired_surrogate_becomes_replacement() {
    let (text, had_errors) = Charset::utf7().decode_without_bom_handling(b"+2AA-");
    assert_eq!(text.as_str(), "\u{FFFD}");
    assert!(had_errors);
}

#[test]
fn long_shifted_run_decodes_group_by_group() {
    let mut input = Vec::new();
    input.push(b'+');
    for _ in 0..30 {
        input.extend_from_slice(b"AAAA");
    }
    input.push(b'-');
    let (text, had_errors) = Charset::utf7().decode_without_bom_handling(&input);
    let expected: String = core::iter::repeat('\u{0000}').take(45).collect();
    assert_eq!(text.as_str(), expected.as_str());
    assert!(!had_errors);
}

#[test]
fn lone_base64_character_carries_no_whole_byte() {
    let (text, had_errors) = Charset::utf7().decode_without_bom_handling(b"+A-x");
    assert_eq!(text.as_str(), "x");
    assert!(!had_errors);
}

#[test]
fn decoding_is_a_pure_function_of_the_input() {
    let input: &[u8] = b"caf+AOk- +AOk+AOk- \x80 +";
    let (text1, had1) = Charset::utf7().decode_without_bom_handling(input);
    let (text2, had2) = Charset::utf7().decode_without_bom_handling(input);
    assert_eq!(text1.as_str(), text2.as_str());
    assert_eq!(had1, had2);
}

#[test]
fn decode_sniffs_and_strips_bom() {
    let (text, charset, had_errors) = Charset::utf7().decode(b"\xEF\xBB\xBFAa");
    assert_eq!(text.as_str(), "Aa");
    assert_eq!(charset, Charset::for_encoding(encoding_rs::UTF_8));
    assert!(!had_errors);

    let (text, charset, had_errors) = Charset::utf7().decode(b"+AOk-");
    assert_eq!(text.as_str(), "\u{00E9}");
    assert_eq!(charset, Charset::utf7());
    assert!(!had_errors);
}

#[test]
fn utf7_charset_ignores_bom_handling_requests() {
    let (text, had_errors) = Charset::utf7().decode_with_bom_removal(b"+AOk-");
    assert_eq!(text.as_str(), "\u{00E9}");
    assert!(!had_errors);
}

#[test]
fn wrapped_encoding_decodes_through_the_codec() {
    let charset = Charset::for_label(b"windows-1252").unwrap();
    let (text, had_errors) = charset.decode_without_bom_handling(b"caf\xE9");
    assert_eq!(text.as_str(), "caf\u{00E9}");
    assert!(!had_errors);
}

#[test]
fn utf7_name() {
    assert_eq!(Charset::utf7().name(), "UTF-7");
}
