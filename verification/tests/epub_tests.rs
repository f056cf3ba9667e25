use kreuzberg::epub::book::EpubBook;
use kreuzberg::epub::EpubExtractor;
use kreuzberg::plugins::VERSION;

#[test]
fn test_epub_extractor_plugin_interface() {
    let extractor = EpubExtractor::new();
    assert_eq!(extractor.name(), "epub-extractor");
    assert_eq!(extractor.version(), VERSION);
    assert_eq!(extractor.priority(), 60);
    assert!(!extractor.supported_mime_types().is_empty());
}

#[test]
fn test_epub_extractor_default() {
    let extractor = EpubExtractor::default();
    assert_eq!(extractor.name(), "epub-extractor");
}

#[test]
fn test_epub_extractor_initialize_shutdown() {
    let extractor = EpubExtractor::new();
    assert!(extractor.initialize().is_ok());
    assert!(extractor.shutdown().is_ok());
}

#[test]
fn test_extract_text_from_xhtml_simple() {
    let html = "<html><body><p>Hello World</p></body></html>";
    let text = EpubExtractor::extract_text_from_xhtml(html);
    assert!(text.contains("Hello World"));
}

#[test]
fn test_extract_text_from_xhtml_with_entities() {
    let html = "<p>Hello&nbsp;&amp;&nbsp;World</p>";
    let text = EpubExtractor::extract_text_from_xhtml(html);
    assert!(text.contains("Hello"));
    assert!(text.contains("World"));
}

#[test]
fn test_extract_text_from_xhtml_removes_script() {
    let html = "<body><p>Text</p><script>alert('bad');</script><p>More</p></body>";
    let text = EpubExtractor::extract_text_from_xhtml(html);
    assert!(!text.contains("bad"));
    assert!(text.contains("Text"));
    assert!(text.contains("More"));
}

#[test]
fn test_extract_text_from_xhtml_removes_style() {
    let html = "<body><p>Text</p><style>.class { color: red; }</style><p>More</p></body>";
    let text = EpubExtractor::extract_text_from_xhtml(html);
    assert!(!text.to_lowercase().contains("color"));
    assert!(text.contains("Text"));
    assert!(text.contains("More"));
}

#[test]
fn test_extract_text_from_xhtml_normalizes_whitespace() {
    let html = "<p>Hello   \n\t   World</p>";
    let text = EpubExtractor::extract_text_from_xhtml(html);
    assert!(text.contains("Hello World") || text.contains("Hello  World"));
}

#[test]
fn test_epub_extractor_supported_mime_types() {
    let extractor = EpubExtractor::new();
    let supported = extractor.supported_mime_types();
    assert!(supported.contains(&"application/epub+zip"));
    assert!(supported.contains(&"application/x-epub+zip"));
    assert!(supported.contains(&"application/vnd.epub+zip"));
}

#[test]
fn xhtml_text_exact() {
    assert_eq!(
        EpubExtractor::extract_text_from_xhtml("<html><body><p>Hello World</p></body></html>"),
        "Hello World"
    );
    assert_eq!(
        EpubExtractor::extract_text_from_xhtml("<p>Hello&nbsp;&amp;&nbsp;World</p>"),
        "Hello & World"
    );
    assert_eq!(
        EpubExtractor::extract_text_from_xhtml("<p>Hello   \n\t   World</p>"),
        "Hello World"
    );
    assert_eq!(
        EpubExtractor::extract_text_from_xhtml(
            "<body><p>Text</p><SCRIPT type='x'>alert('bad');</SCRIPT><p>More</p></body>"
        ),
        "TextMore"
    );
}

#[test]
fn xhtml_entities() {
    assert_eq!(
        EpubExtractor::extract_text_from_xhtml("a &lt;b&gt; &quot;c&quot; &apos;d&apos;"),
        "a <b> \"c\" 'd'"
    );
    assert_eq!(EpubExtractor::extract_text_from_xhtml("x &copy; y"), "x &copy; y");
    assert_eq!(EpubExtractor::extract_text_from_xhtml("x &amp"), "x &amp");
    assert_eq!(EpubExtractor::extract_text_from_xhtml("a&nbsp;&nbsp;b"), "a b");
}

#[test]
fn xhtml_text_is_deterministic() {
    let html = "<div>a <b>b</b>&amp;<style>x</style> c</div>";
    assert_eq!(
        EpubExtractor::extract_text_from_xhtml(html),
        EpubExtractor::extract_text_from_xhtml(html)
    );
    assert_eq!(EpubExtractor::extract_text_from_xhtml(html), "a b& c");
}

fn sample_book() -> EpubBook {
    EpubBook {
        chapters: vec![
            Some("<h1>One</h1>".to_string()),
            None,
            Some("<script>x</script>".to_string()),
            Some("<p>Two  words</p>".to_string()),
        ],
        metadata: vec![
            ("title".to_string(), "A Book".to_string()),
            ("creator".to_string(), "Ann".to_string()),
            ("creator".to_string(), "Bob".to_string()),
            ("language".to_string(), "en".to_string()),
            ("dcterms:modified".to_string(), "2020".to_string()),
        ],
        release_identifier: Some("id@2020".to_string()),
        cover_id: Some("cover-img".to_string()),
    }
}

#[test]
fn chapters_are_joined_by_newlines() {
    assert_eq!(EpubExtractor::extract_content(&sample_book()), "One\nTwo words");
    let empty = EpubBook { chapters: vec![], metadata: vec![], release_identifier: None, cover_id: None };
    assert_eq!(EpubExtractor::extract_content(&empty), "");
}

#[test]
fn book_metadata_takes_the_first_item_of_a_property() {
    let book = sample_book();
    assert_eq!(book.mdata("creator"), Some("Ann".to_string()));
    assert_eq!(book.mdata("publisher"), None);
    let metadata = EpubExtractor::extract_metadata(&book);
    assert_eq!(metadata.get("title").and_then(|v| v.as_str()), Some("A Book"));
    assert_eq!(metadata.get("creator").and_then(|v| v.as_str()), Some("Ann"));
    assert_eq!(
        metadata.get("authors").and_then(|v| v.as_list()),
        Some(&vec!["Ann".to_string()])
    );
    assert_eq!(metadata.get("language").and_then(|v| v.as_str()), Some("en"));
    assert_eq!(
        metadata.get("release_identifier").and_then(|v| v.as_str()),
        Some("id@2020")
    );
    assert!(metadata.get("publisher").is_none());
    assert!(metadata.get("cover").is_none());
    assert_eq!(metadata.len(), 5);
}

#[test]
fn extracted_book_names_its_cover() {
    let book = sample_book();
    assert_eq!(EpubExtractor::detect_cover(&book), Some("cover-img".to_string()));
    let result = EpubExtractor::extract_book(&book, "application/epub+zip");
    assert_eq!(result.content, "One\nTwo words");
    assert_eq!(result.mime_type, "application/epub+zip");
    assert_eq!(
        result.metadata.additional.get("cover").and_then(|v| v.as_str()),
        Some("cover-img")
    );
    assert_eq!(result.metadata.additional.len(), 6);
    assert!(result.tables.is_empty());
    assert_eq!(result.metadata.date, None);
}
