use kreuzberg::plugins::{DocumentExtractor, VERSION};
use kreuzberg::rtf::{extract_text_from_rtf, RtfExtractor};
use kreuzberg::types::ExtractionConfig;

#[test]
fn test_rtf_extractor_plugin_interface() {
    let extractor = RtfExtractor::new();
    assert_eq!(extractor.name(), "rtf-extractor");
    assert_eq!(extractor.version(), VERSION);
    assert!(extractor.supported_mime_types().contains(&"application/rtf"));
    assert_eq!(extractor.priority(), 50);
}

#[test]
fn test_simple_rtf_extraction() {
    let rtf_content = r#"{\rtf1 Hello World}"#;
    let extracted = extract_text_from_rtf(rtf_content);
    assert!(extracted.contains("Hello") || extracted.contains("World"));
}

#[test]
fn simple_rtf_gives_its_words() {
    assert_eq!(extract_text_from_rtf(r#"{\rtf1 Hello World}"#), "Hello World");
}

#[test]
fn hex_escape_is_latin1() {
    assert_eq!(extract_text_from_rtf("{\\rtf1 caf\\'e9}"), "caf\u{e9}");
    assert_eq!(extract_text_from_rtf("le caf\\'E9 o\\'f9 on"), "le caf\u{e9} o\u{f9} on");
}

#[test]
fn hex_escape_that_is_no_byte_is_dropped() {
    assert_eq!(extract_text_from_rtf("a\\'zzb"), "ab");
    assert_eq!(extract_text_from_rtf("a\\'4"), "a");
    assert_eq!(extract_text_from_rtf("a\\'+41"), "a1");
}

#[test]
fn unicode_escape() {
    assert_eq!(extract_text_from_rtf("\\u233 t\\u233"), "\u{e9} t\u{e9}");
    assert_eq!(extract_text_from_rtf("\\u8364"), "\u{20ac}");
}

#[test]
fn negative_unicode_escape_is_raised_by_65536() {
    assert_eq!(extract_text_from_rtf("\\u-4064"), "\u{f020}");
    assert_eq!(extract_text_from_rtf("x\\u-70000y"), "xy");
}

#[test]
fn unicode_escape_without_a_character_is_dropped() {
    assert_eq!(extract_text_from_rtf("a\\u55296b"), "ab");
    assert_eq!(extract_text_from_rtf("a\\u99999999999b"), "ab");
    assert_eq!(extract_text_from_rtf("a\\u1-2b"), "ab");
    assert_eq!(extract_text_from_rtf("a\\u-b"), "ab");
    assert_eq!(extract_text_from_rtf("a\\u1114112b"), "ab");
}

#[test]
fn control_words_are_skipped() {
    assert_eq!(
        extract_text_from_rtf("{\\rtf1\\ansi\\deff0 {\\b Bold} and {\\i italic}}"),
        "Bold and italic"
    );
    assert_eq!(extract_text_from_rtf("\\fs24 size"), "size");
    assert_eq!(extract_text_from_rtf("\\li-720 text"), "text");
    assert_eq!(extract_text_from_rtf("\\li-720x"), "x");
    assert_eq!(extract_text_from_rtf("\\li- x"), "x");
}

#[test]
fn control_word_that_begins_with_u_is_skipped() {
    assert_eq!(extract_text_from_rtf("\\ul Hi"), "Hi");
    assert_eq!(extract_text_from_rtf("{\\rtf1 a \\ulnone b\\uc1 c\\u}"), "a b c");
    assert_eq!(extract_text_from_rtf("\\u233 \\u-4064"), "\u{e9} \u{f020}");
}

#[test]
fn escaped_delimiters_are_text() {
    assert_eq!(extract_text_from_rtf("\\{a\\\\b\\}"), "{a\\b}");
}

#[test]
fn whitespace_is_normalized() {
    assert_eq!(extract_text_from_rtf("  a \t\n b\r\n\r\nc  "), "a b c");
    assert_eq!(extract_text_from_rtf("a\u{a0}\u{2003}b"), "a b");
    assert_eq!(extract_text_from_rtf(""), "");
    assert_eq!(extract_text_from_rtf("{}{ }"), "");
}

#[test]
fn backslash_at_the_end_is_dropped() {
    assert_eq!(extract_text_from_rtf("a\\"), "a");
}

#[test]
fn rtf_extraction_is_deterministic() {
    let rtf = "{\\rtf1\\ansi caf\\'e9 \\u8364? {\\b x}}";
    assert_eq!(extract_text_from_rtf(rtf), extract_text_from_rtf(rtf));
    assert_eq!(extract_text_from_rtf(rtf), "caf\u{e9} \u{20ac}? x");
}

#[test]
fn rtf_extractor_keeps_the_mime_type() {
    let extractor = RtfExtractor::default();
    let result = extractor
        .extract_bytes(b"{\\rtf1 Hello}", "application/rtf", &ExtractionConfig::new())
        .unwrap();
    assert_eq!(result.mime_type, "application/rtf");
    assert_eq!(result.content, "Hello");
    assert!(result.tables.is_empty());
    assert!(result.metadata.additional.is_empty());
    assert_eq!(result.metadata.date, None);
    assert_eq!(extractor.supported_mime_types(), vec!["application/rtf", "text/rtf"]);
    assert!(extractor.initialize().is_ok());
    assert!(extractor.shutdown().is_ok());
    assert!(!extractor.description().is_empty());
    assert_eq!(extractor.author(), "Kreuzberg Team");
}
