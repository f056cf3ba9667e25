use kreuzberg::error::KreuzbergError;
use kreuzberg::mime::{
    detect_mime_from_bytes, get_extensions_for_mime, get_mime_from_extension, lookup_extension,
    normalize_mime_type, strip_parameters,
};

#[test]
fn test_normalize_mime_type_basic() {
    assert_eq!(normalize_mime_type("text/plain".to_string()), "text/plain");
}

#[test]
fn test_normalize_mime_type_uppercase() {
    assert_eq!(normalize_mime_type("Application/JSON".to_string()), "application/json");
}

#[test]
fn test_normalize_mime_type_with_charset() {
    assert_eq!(normalize_mime_type("text/html; charset=utf-8".to_string()), "text/html");
}

#[test]
fn test_get_mime_from_extension_pdf() {
    assert_eq!(
        get_mime_from_extension("pdf".to_string()),
        Some("application/pdf".to_string())
    );
    assert_eq!(
        get_mime_from_extension(".pdf".to_string()),
        Some("application/pdf".to_string())
    );
}

#[test]
fn test_get_mime_from_extension_image() {
    assert_eq!(
        get_mime_from_extension("jpg".to_string()),
        Some("image/jpeg".to_string())
    );
    assert_eq!(
        get_mime_from_extension("jpeg".to_string()),
        Some("image/jpeg".to_string())
    );
    assert_eq!(
        get_mime_from_extension("png".to_string()),
        Some("image/png".to_string())
    );
}

#[test]
fn test_get_mime_from_extension_unknown() {
    assert_eq!(get_mime_from_extension("unknown".to_string()), None);
    assert_eq!(get_mime_from_extension("xyz".to_string()), None);
}

#[test]
fn normalize_trims_and_cuts_parameters() {
    assert_eq!(normalize_mime_type("  Text/Plain ; charset=ISO-8859-1".to_string()), "text/plain");
    assert_eq!(normalize_mime_type(";x".to_string()), "");
    assert_eq!(normalize_mime_type("".to_string()), "");
    assert_eq!(normalize_mime_type("a;b;c".to_string()), "a");
}

#[test]
fn normalize_is_idempotent_on_samples() {
    for sample in ["Application/JSON", "text/html; charset=utf-8", "  X/Y ;q=1", "", "a b"] {
        let once = normalize_mime_type(sample.to_string());
        assert_eq!(normalize_mime_type(once.clone()), once);
    }
}

#[test]
fn extension_lookup_ignores_case_and_one_dot() {
    assert_eq!(
        get_mime_from_extension(".PDF".to_string()),
        Some("application/pdf".to_string())
    );
    assert_eq!(
        get_mime_from_extension("DocX".to_string()),
        Some("application/vnd.openxmlformats-officedocument.wordprocessingml.document".to_string())
    );
    assert_eq!(get_mime_from_extension("..pdf".to_string()), None);
    assert_eq!(get_mime_from_extension("unknown-ext".to_string()), None);
    assert_eq!(get_mime_from_extension("".to_string()), None);
    assert_eq!(get_mime_from_extension("7z".to_string()), Some("application/x-7z-compressed".to_string()));
    assert_eq!(get_mime_from_extension("tex".to_string()), Some("application/x-latex".to_string()));
    assert_eq!(get_mime_from_extension("rtf".to_string()), Some("application/rtf".to_string()));
    assert_eq!(get_mime_from_extension("epub".to_string()), Some("application/epub+zip".to_string()));
}

#[test]
fn extensions_of_a_mime_type_in_table_order() {
    assert_eq!(get_extensions_for_mime("application/pdf").unwrap(), vec!["pdf".to_string()]);
    assert_eq!(
        get_extensions_for_mime("image/jpeg").unwrap(),
        vec!["jpg".to_string(), "jpeg".to_string()]
    );
    assert_eq!(
        get_extensions_for_mime("application/x-tar").unwrap(),
        vec!["tar".to_string(), "tgz".to_string()]
    );
}

#[test]
fn every_listed_extension_maps_back() {
    for mime in ["text/markdown", "text/html", "image/tiff", "application/x-yaml", "application/x-latex"] {
        for ext in get_extensions_for_mime(mime).unwrap() {
            assert_eq!(get_mime_from_extension(ext), Some(mime.to_string()));
        }
    }
}

#[test]
fn unknown_mime_type_is_unsupported() {
    match get_extensions_for_mime("application/x-custom") {
        Err(KreuzbergError::UnsupportedFormat(format)) => assert_eq!(format, "application/x-custom"),
        other => panic!("unexpected: {:?}", other),
    }
    assert!(get_extensions_for_mime("Application/PDF").is_err());
}

#[test]
fn signatures_are_detected() {
    assert_eq!(detect_mime_from_bytes(b"%PDF-1.4\n").unwrap(), "application/pdf");
    assert_eq!(detect_mime_from_bytes(&[0x89, 0x50, 0x4E, 0x47, 0x0D, 0x0A]).unwrap(), "image/png");
    assert_eq!(detect_mime_from_bytes(&[0xFF, 0xD8, 0xFF, 0xE0]).unwrap(), "image/jpeg");
    assert_eq!(detect_mime_from_bytes(b"GIF89a").unwrap(), "image/gif");
    assert_eq!(detect_mime_from_bytes(b"II*\0rest").unwrap(), "image/tiff");
    assert_eq!(detect_mime_from_bytes(b"MM\0*rest").unwrap(), "image/tiff");
    assert_eq!(detect_mime_from_bytes(b"RIFF\x10\0\0\0WEBPVP8 ").unwrap(), "image/webp");
    assert_eq!(detect_mime_from_bytes(b"PK\x03\x04\x14\0").unwrap(), "application/zip");
    assert_eq!(detect_mime_from_bytes(&[0x1F, 0x8B, 0x08]).unwrap(), "application/gzip");
    assert_eq!(
        detect_mime_from_bytes(&[0x37, 0x7A, 0xBC, 0xAF, 0x27, 0x1C]).unwrap(),
        "application/x-7z-compressed"
    );
    assert_eq!(detect_mime_from_bytes(b"{\\rtf1 x}").unwrap(), "application/rtf");
    assert_eq!(detect_mime_from_bytes(b"BM\x36\0\0\0").unwrap(), "image/bmp");
}

#[test]
fn text_is_detected_where_no_signature_matches() {
    assert_eq!(detect_mime_from_bytes(b"plain words\n\twith a tab\r\n").unwrap(), "text/plain");
    assert_eq!(detect_mime_from_bytes("caf\u{e9}".as_bytes()).unwrap(), "text/plain");
}

#[test]
fn undetected_data_is_a_parsing_error() {
    for data in [&b""[..], &b"\x00\x01\x02"[..], &b"abc\x00def"[..], &b"a\x7fb"[..]] {
        match detect_mime_from_bytes(data) {
            Err(KreuzbergError::Parsing { message, source }) => {
                assert_eq!(message, "Could not determine MIME type from bytes");
                assert!(source.is_none());
            }
            other => panic!("unexpected: {:?}", other),
        }
    }
}

#[test]
fn table_lookup_is_exact() {
    assert_eq!(lookup_extension("pdf"), Some("application/pdf".to_string()));
    assert_eq!(lookup_extension("PDF"), None);
    assert_eq!(lookup_extension(".pdf"), None);
    assert_eq!(lookup_extension("commonmark"), Some("text/x-commonmark".to_string()));
    assert_eq!(lookup_extension("txt"), Some("text/plain".to_string()));
}

#[test]
fn parameters_are_cut_off() {
    assert_eq!(strip_parameters("text/html; charset=utf-8"), "text/html");
    assert_eq!(strip_parameters("text/html ;a;b"), "text/html");
    assert_eq!(strip_parameters(" text/html "), " text/html ");
    assert_eq!(strip_parameters("Text/HTML"), "Text/HTML");
    assert_eq!(strip_parameters(";"), "");
}
