use extractous::{
    clean_document_text, clean_text_fast, extract_text_content, normalize_whitespace,
    truncate_text_smart, u64_to_string, validate_utf8_fast, TextStats,
};

#[test]
fn test_clean_text_fast() {
    let input = "Hello\t\tworld\n\n\nwith\r\nmultiple\x00spaces";
    let result = clean_text_fast(input);
    // The function removes control characters and normalizes whitespace
    assert_eq!(result, "Hello world with multiplespaces");
}

#[test]
fn test_normalize_whitespace() {
    let input = "  Hello    world  \n\n  test  ";
    let result = normalize_whitespace(input);
    assert_eq!(result, "Hello world test");
}

#[test]
fn test_extract_text_content() {
    let input = "<html><body>Hello <b>world</b>!</body></html>";
    let result = extract_text_content(input);
    assert_eq!(result, "Hello world !");
}

#[test]
fn test_truncate_text_smart() {
    let input = "This is a long sentence that should be truncated at word boundaries";
    let result = truncate_text_smart(input, 30);
    assert!(result.len() <= 33); // 30 + "..."
    assert!(result.ends_with("..."));
    assert!(!result.contains("truncat")); // Should break at word boundary
}

#[test]
fn test_text_stats() {
    let text = "Hello world! 123";
    let stats = TextStats::analyze(text);

    assert_eq!(stats.total_chars, 16); // Corrected count
    assert_eq!(stats.alphabetic, 10);
    assert_eq!(stats.numeric, 3);
    assert_eq!(stats.whitespace, 2);
    assert_eq!(stats.punctuation, 1);
    assert!(stats.is_meaningful_text());
}

#[test]
fn normalize_whitespace_is_idempotent() {
    let input = "  a\tb\u{a0} c  \n";
    let once = normalize_whitespace(input);
    let twice = normalize_whitespace(&once);
    assert_eq!(once, twice);
    assert_eq!(once, "a b c");
}

#[test]
fn truncate_within_limit_is_a_no_op() {
    assert_eq!(truncate_text_smart("short", 30), "short");
    assert_eq!(truncate_text_smart("", 0), "");
    let exact = "exactly ten";
    assert_eq!(truncate_text_smart(exact, exact.len()), exact);
}

#[test]
fn truncate_without_word_boundary_cuts_at_limit() {
    let long = "x".repeat(200);
    let result = truncate_text_smart(&long, 100);
    assert_eq!(result.len(), 103);
    assert!(result.ends_with("..."));
    assert_eq!(&result[..100], &long[..100]);
}

#[test]
fn truncate_never_splits_multibyte_characters() {
    // Each 'é' is two bytes; a cut at an odd limit must move back.
    let text = "é".repeat(60);
    let result = truncate_text_smart(&text, 33);
    assert!(result.ends_with("..."));
    assert!(result.len() <= 36);
    assert!(std::str::from_utf8(result.as_bytes()).is_ok());
    for c in result.chars() {
        assert!(c == 'é' || c == '.');
    }
}

#[test]
fn short_text_is_never_meaningful() {
    let stats = TextStats::analyze("hi there!");
    assert!(!stats.is_meaningful_text());
}

#[test]
fn whitespace_heavy_text_is_not_meaningful() {
    let stats = TextStats::analyze("a b c d e f g h i j");
    assert!(!stats.is_meaningful_text());
}

#[test]
fn clean_document_drops_short_and_shouting_lines() {
    let input = "HEADER LINE\n\nA real sentence that stays.\nok\nANOTHER HEADER\nSecond real sentence here.\n";
    let result = clean_document_text(input);
    assert_eq!(
        result,
        "A real sentence that stays.\nSecond real sentence here."
    );
}

#[test]
fn validate_utf8_fast_agrees_with_the_standard_library() {
    let samples: Vec<Vec<u8>> = vec![
        b"plain ascii".to_vec(),
        "mixé ütf8 ✓".as_bytes().to_vec(),
        vec![0xff, 0x00, 0x41],
        vec![0xc3],
        vec![0xc3, 0xa9],
        vec![0xe0, 0x80, 0x80],
        vec![0xed, 0xa0, 0x80],
        vec![],
    ];
    for s in samples {
        assert_eq!(validate_utf8_fast(&s), std::str::from_utf8(&s).is_ok());
    }
}

#[test]
fn u64_to_string_formats_decimals() {
    assert_eq!(u64_to_string(0), "0");
    assert_eq!(u64_to_string(7), "7");
    assert_eq!(u64_to_string(1024), "1024");
    assert_eq!(u64_to_string(18446744073709551615), "18446744073709551615");
}

#[test]
fn clean_document_keeps_three_byte_lines() {
    assert_eq!(clean_document_text("ab\ncat sat on the mat\n"), "cat sat on the mat");
    assert_eq!(clean_document_text("abc def ghi jkl mno\n"), "abc def ghi jkl mno");
}
