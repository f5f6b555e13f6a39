use charset::Charset;

#[test]
fn test_for_label() {
    assert_eq!(Charset::for_label(b"  uTf-7\t "), Some(Charset::utf7()));
    assert_eq!(
        Charset::for_label(b"  uTf-8\t "),
        Some(Charset::for_encoding(encoding_rs::UTF_8))
    );
    assert_eq!(
        Charset::for_label(b"  iSo-8859-1\t "),
        Some(Charset::for_encoding(encoding_rs::WINDOWS_1252))
    );
    assert_eq!(
        Charset::for_label(b"  gb2312\t "),
        Some(Charset::for_encoding(encoding_rs::GB18030))
    );
    assert_eq!(
        Charset::for_label(b"  ISO-2022-KR\t "),
        Some(Charset::for_encoding(encoding_rs::REPLACEMENT))
    );

    assert_eq!(Charset::for_label(b"u"), None);
    assert_eq!(Charset::for_label(b"ut"), None);
    assert_eq!(Charset::for_label(b"utf"), None);
    assert_eq!(Charset::for_label(b"utf-"), None);
}

#[test]
fn test_for_label_no_replacement() {
    assert_eq!(
        Charset::for_label_no_replacement(b"  uTf-7\t "),
        Some(Charset::utf7())
    );
    assert_eq!(
        Charset::for_label_no_replacement(b"  uTf-8\t "),
        Some(Charset::for_encoding(encoding_rs::UTF_8))
    );
    assert_eq!(
        Charset::for_label_no_replacement(b"  iSo-8859-1\t "),
        Some(Charset::for_encoding(encoding_rs::WINDOWS_1252))
    );
    assert_eq!(
        Charset::for_label_no_replacement(b"  Gb2312\t "),
        Some(Charset::for_encoding(encoding_rs::GB18030))
    );
    assert_eq!(Charset::for_label_no_replacement(b"  ISO-2022-KR\t "), None);

    assert_eq!(Charset::for_label_no_replacement(b"u"), None);
    assert_eq!(Charset::for_label_no_replacement(b"ut"), None);
    assert_eq!(Charset::for_label_no_replacement(b"utf"), None);
    assert_eq!(Charset::for_label_no_replacement(b"utf-"), None);
}

#[test]
fn test_for_label_and_name() {
    assert_eq!(Charset::for_label(b"  uTf-7\t ").unwrap().name(), "UTF-7");
    assert_eq!(Charset::for_label(b"  uTf-8\t ").unwrap().name(), "UTF-8");
    assert_eq!(
        Charset::for_label(b"  Gb2312\t ").unwrap().name(),
        "gb18030"
    );
}

#[test]
fn label_with_embedded_space_is_no_utf7_match() {
    assert_eq!(Charset::for_label(b"u tf-7"), None);
    assert_eq!(Charset::for_label_no_replacement(b"u tf-7"), None);
}

#[test]
fn is_ascii_compatible_answers() {
    assert!(!Charset::utf7().is_ascii_compatible());
    assert!(Charset::for_encoding(encoding_rs::UTF_8).is_ascii_compatible());
}

#[test]
fn bom_sniffing() {
    assert_eq!(
        Charset::for_bom(b"\xEF\xBB\xBFhello"),
        Some((Charset::for_encoding(encoding_rs::UTF_8), 3))
    );
    assert_eq!(
        Charset::for_bom(b"\xFF\xFEh\x00"),
        Some((Charset::for_encoding(encoding_rs::UTF_16LE), 2))
    );
    assert_eq!(
        Charset::for_bom(b"\xFE\xFF\x00h"),
        Some((Charset::for_encoding(encoding_rs::UTF_16BE), 2))
    );
    assert_eq!(Charset::for_bom(b"hello"), None);
    assert_eq!(Charset::for_bom(b"\xEF\xBB"), None);
    assert_eq!(Charset::for_bom(b""), None);
}
