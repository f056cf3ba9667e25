use kreuzberg::error::{describe_error, exception_for, format_error_message, ExceptionClass, KreuzbergError};

fn parsing(source: Option<&str>) -> KreuzbergError {
    KreuzbergError::Parsing {
        message: "Invalid PDF header".to_string(),
        source: source.map(|s| s.to_string()),
    }
}

#[test]
fn message_has_its_source_behind_a_colon() {
    assert_eq!(format_error_message(&parsing(None)), "Invalid PDF header");
    assert_eq!(
        format_error_message(&parsing(Some("unexpected end"))),
        "Invalid PDF header: unexpected end"
    );
}

#[test]
fn messages_of_every_kind() {
    let with = |message: &str| (message.to_string(), Some("cause".to_string()));
    let (m, s) = with("v");
    assert_eq!(format_error_message(&KreuzbergError::Validation { message: m, source: s }), "v: cause");
    let (m, s) = with("o");
    assert_eq!(format_error_message(&KreuzbergError::Ocr { message: m, source: s }), "o: cause");
    let (m, s) = with("c");
    assert_eq!(format_error_message(&KreuzbergError::Cache { message: m, source: s }), "c: cause");
    let (m, s) = with("i");
    assert_eq!(format_error_message(&KreuzbergError::ImageProcessing { message: m, source: s }), "i: cause");
    let (m, s) = with("s");
    assert_eq!(format_error_message(&KreuzbergError::Serialization { message: m, source: s }), "s: cause");
    assert_eq!(format_error_message(&KreuzbergError::UnsupportedFormat("x/y".to_string())), "x/y");
    assert_eq!(format_error_message(&KreuzbergError::Io("file not found".to_string())), "file not found");
    assert_eq!(format_error_message(&KreuzbergError::LockPoisoned("registry".to_string())), "registry");
    assert_eq!(format_error_message(&KreuzbergError::MissingDependency("libreoffice".to_string())), "libreoffice");
    assert_eq!(format_error_message(&KreuzbergError::Other("Unknown error occurred".to_string())), "Unknown error occurred");
    assert_eq!(
        format_error_message(&KreuzbergError::Plugin {
            message: "Plugin initialization failed".to_string(),
            plugin_name: "custom-processor".to_string(),
        }),
        "Plugin error in 'custom-processor': Plugin initialization failed"
    );
}

#[test]
fn descriptions_name_the_kind() {
    let cases: Vec<(KreuzbergError, &str, &str)> = vec![
        (KreuzbergError::Io("file not found".to_string()), "IOError", "IO error: file not found"),
        (parsing(Some("ignored")), "ParsingError", "Parsing error: Invalid PDF header"),
        (
            KreuzbergError::Ocr { message: "OCR processing failed".to_string(), source: None },
            "OCRError",
            "OCR error: OCR processing failed",
        ),
        (
            KreuzbergError::Validation { message: "Invalid configuration".to_string(), source: None },
            "ValidationError",
            "Validation error: Invalid configuration",
        ),
        (
            KreuzbergError::Cache { message: "Cache write failed".to_string(), source: None },
            "CacheError",
            "Cache error: Cache write failed",
        ),
        (
            KreuzbergError::ImageProcessing { message: "Image resize failed".to_string(), source: None },
            "ImageProcessingError",
            "Image processing error: Image resize failed",
        ),
        (
            KreuzbergError::Serialization { message: "JSON serialization failed".to_string(), source: None },
            "SerializationError",
            "Serialization error: JSON serialization failed",
        ),
        (
            KreuzbergError::MissingDependency("libreoffice".to_string()),
            "MissingDependencyError",
            "Missing dependency: libreoffice",
        ),
        (
            KreuzbergError::Plugin {
                message: "Plugin initialization failed".to_string(),
                plugin_name: "custom-processor".to_string(),
            },
            "PluginError",
            "Plugin error in 'custom-processor': Plugin initialization failed",
        ),
        (KreuzbergError::LockPoisoned("registry".to_string()), "LockPoisonedError", "Lock poisoned: registry"),
        (
            KreuzbergError::UnsupportedFormat("application/x-custom".to_string()),
            "UnsupportedFormatError",
            "Unsupported format: application/x-custom",
        ),
        (KreuzbergError::Other("Unknown error occurred".to_string()), "Error", "Unknown error occurred"),
    ];
    for (error, kind, description) in cases {
        let (k, d) = describe_error(&error);
        assert_eq!(k, kind);
        assert_eq!(d, description);
    }
}

#[test]
fn exceptions_by_kind() {
    let class = |e: KreuzbergError| exception_for(&e).0;
    assert_eq!(class(KreuzbergError::Validation { message: "m".to_string(), source: None }), ExceptionClass::Validation);
    assert_eq!(class(KreuzbergError::UnsupportedFormat("m".to_string())), ExceptionClass::Validation);
    assert_eq!(class(parsing(None)), ExceptionClass::Parsing);
    assert_eq!(class(KreuzbergError::Serialization { message: "m".to_string(), source: None }), ExceptionClass::Parsing);
    assert_eq!(class(KreuzbergError::Io("m".to_string())), ExceptionClass::Default);
    assert_eq!(class(KreuzbergError::Ocr { message: "m".to_string(), source: None }), ExceptionClass::Ocr);
    assert_eq!(class(KreuzbergError::Plugin { message: "m".to_string(), plugin_name: "p".to_string() }), ExceptionClass::Plugin);
    assert_eq!(class(KreuzbergError::Cache { message: "m".to_string(), source: None }), ExceptionClass::Cache);
    assert_eq!(class(KreuzbergError::ImageProcessing { message: "m".to_string(), source: None }), ExceptionClass::ImageProcessing);
    assert_eq!(class(KreuzbergError::MissingDependency("m".to_string())), ExceptionClass::MissingDependency);
    assert_eq!(class(KreuzbergError::Other("m".to_string())), ExceptionClass::Default);
    assert_eq!(class(KreuzbergError::LockPoisoned("m".to_string())), ExceptionClass::Default);
}

#[test]
fn exception_messages() {
    assert_eq!(exception_for(&parsing(Some("cause"))).1, "Invalid PDF header: cause");
    assert_eq!(
        exception_for(&KreuzbergError::LockPoisoned("registry".to_string())).1,
        "Lock poisoned: registry"
    );
}
