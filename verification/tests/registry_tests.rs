use kreuzberg::error::KreuzbergError;
use kreuzberg::latex::LatexExtractor;
use kreuzberg::plugins::DocumentExtractor;
use kreuzberg::registry::{
    registration_outcome, DispatchError, ExtractionRequest, ExtractorRegistry, RegistryError,
};
use kreuzberg::rtf::RtfExtractor;
use kreuzberg::types::{ExtractionConfig, ExtractionResult, Metadata};

struct Fixed {
    name: &'static str,
    types: Vec<&'static str>,
    priority: i32,
    fails: bool,
    set_up_fails: bool,
}

fn fixed(name: &'static str, types: &[&'static str], priority: i32, fails: bool) -> Fixed {
    Fixed { name, types: types.to_vec(), priority, fails, set_up_fails: false }
}

impl DocumentExtractor for Fixed {
    fn name(&self) -> &str {
        self.name
    }

    fn version(&self) -> String {
        "1".to_string()
    }

    fn initialize(&self) -> Result<(), KreuzbergError> {
        if self.set_up_fails {
            Err(KreuzbergError::Other("no set-up".to_string()))
        } else {
            Ok(())
        }
    }

    fn shutdown(&self) -> Result<(), KreuzbergError> {
        Ok(())
    }

    fn description(&self) -> &str {
        "fixed"
    }

    fn author(&self) -> &str {
        "tests"
    }

    fn extract_bytes(
        &self,
        _content: &[u8],
        mime_type: &str,
        _config: &ExtractionConfig,
    ) -> Result<ExtractionResult, KreuzbergError> {
        if self.fails {
            Err(KreuzbergError::Other(format!("{} broke", self.name)))
        } else {
            Ok(ExtractionResult::of_text(
                self.name.to_string(),
                mime_type,
                Metadata::new(),
                Vec::new(),
            ))
        }
    }

    fn supported_mime_types(&self) -> Vec<&'static str> {
        self.types.clone()
    }

    fn priority(&self) -> i32 {
        self.priority
    }
}

fn request(mime_type: &str) -> ExtractionRequest {
    ExtractionRequest {
        content: b"data".to_vec(),
        mime_type: mime_type.to_string(),
        config: ExtractionConfig::new(),
    }
}

fn registry(extractors: Vec<Fixed>) -> ExtractorRegistry<Fixed> {
    let mut registry = ExtractorRegistry::new();
    for e in extractors {
        assert!(registry.register(e).is_ok());
    }
    registry
}

#[test]
fn highest_priority_is_selected() {
    let r = registry(vec![
        fixed("slow", &["text/x"], 40, false),
        fixed("fast", &["text/x"], 50, false),
        fixed("other", &["text/y"], 90, false),
    ]);
    assert_eq!(r.candidates("text/x"), vec![1, 0]);
    assert_eq!(r.dispatch(&request("text/x")).unwrap().content, "fast");
    assert_eq!(r.dispatch(&request("text/y")).unwrap().content, "other");
}

#[test]
fn ties_go_to_the_first_registered() {
    let r = registry(vec![
        fixed("low", &["a/b"], 1, false),
        fixed("first", &["a/b"], 5, false),
        fixed("second", &["a/b"], 5, false),
        fixed("top", &["a/b"], 9, true),
        fixed("third", &["a/b"], 5, false),
    ]);
    assert_eq!(r.candidates("a/b"), vec![3, 1, 2, 4, 0]);
    assert_eq!(r.dispatch(&request("a/b")).unwrap().content, "first");
}

#[test]
fn mime_type_is_normalized_and_matched_exactly() {
    let r = registry(vec![fixed("html", &["text/html"], 1, false)]);
    let result = r.dispatch(&request("Text/HTML; charset=utf-8")).unwrap();
    assert_eq!(result.content, "html");
    assert_eq!(result.mime_type, "text/html");
    assert!(r.candidates("text/*").is_empty());
    assert!(r.candidates("text/htm").is_empty());
}

#[test]
fn no_extractor_available() {
    let r = registry(vec![fixed("html", &["text/html"], 1, false)]);
    match r.dispatch(&request("Image/PNG;q=1")) {
        Err(DispatchError::NoExtractorAvailable(mime)) => assert_eq!(mime, "image/png"),
        other => panic!("unexpected: {:?}", other),
    }
    let empty: ExtractorRegistry<Fixed> = ExtractorRegistry::new();
    assert!(matches!(
        empty.dispatch(&request("text/html")),
        Err(DispatchError::NoExtractorAvailable(_))
    ));
}

#[test]
fn failure_falls_back_to_the_next_candidate() {
    let r = registry(vec![
        fixed("backup", &["a/b"], 40, false),
        fixed("preferred", &["a/b"], 50, true),
    ]);
    assert_eq!(r.dispatch(&request("a/b")).unwrap().content, "backup");
}

#[test]
fn all_failures_are_reported_in_order() {
    let r = registry(vec![
        fixed("c", &["a/b"], 1, true),
        fixed("a", &["a/b"], 3, true),
        fixed("skipped", &["x/y"], 9, true),
        fixed("b", &["a/b"], 2, true),
    ]);
    match r.dispatch(&request("a/b")) {
        Err(DispatchError::AllExtractorsFailed(failures)) => {
            let names: Vec<&str> = failures.iter().map(|f| f.extractor.as_str()).collect();
            assert_eq!(names, vec!["a", "b", "c"]);
            for f in &failures {
                match &f.error {
                    KreuzbergError::Other(m) => assert_eq!(m, &format!("{} broke", f.extractor)),
                    other => panic!("unexpected: {:?}", other),
                }
            }
        }
        other => panic!("unexpected: {:?}", other),
    }
}

#[test]
fn duplicate_name_is_refused() {
    let mut r = registry(vec![fixed("one", &["a/b"], 1, false)]);
    match r.register(fixed("one", &["c/d"], 2, false)) {
        Err(RegistryError::DuplicateExtractor(name)) => assert_eq!(name, "one"),
        other => panic!("unexpected: {:?}", other),
    }
    assert_eq!(r.len(), 1);
    assert!(r.candidates("c/d").is_empty());
}

#[test]
fn failed_set_up_adds_nothing() {
    let mut r: ExtractorRegistry<Fixed> = ExtractorRegistry::new();
    let mut broken = fixed("broken", &["a/b"], 1, false);
    broken.set_up_fails = true;
    assert!(matches!(
        r.register(broken),
        Err(RegistryError::InitializationFailed(KreuzbergError::Other(_)))
    ));
    assert_eq!(r.len(), 0);
    assert!(!r.contains("broken"));
}

#[test]
fn registration_outcomes() {
    assert!(registration_outcome("n", false, Ok(())).is_ok());
    assert!(matches!(
        registration_outcome("n", true, Ok(())),
        Err(RegistryError::DuplicateExtractor(ref n)) if n == "n"
    ));
    assert!(matches!(
        registration_outcome("n", true, Err(KreuzbergError::Other("e".to_string()))),
        Err(RegistryError::DuplicateExtractor(_))
    ));
    assert!(matches!(
        registration_outcome("n", false, Err(KreuzbergError::Other("e".to_string()))),
        Err(RegistryError::InitializationFailed(KreuzbergError::Other(ref e))) if e == "e"
    ));
}

#[test]
fn unregister_removes_and_a_missing_name_is_no_error() {
    let mut r = registry(vec![
        fixed("one", &["a/b"], 1, false),
        fixed("two", &["a/b"], 2, false),
        fixed("three", &["a/b"], 3, false),
    ]);
    assert!(r.unregister("two").is_ok());
    assert_eq!(r.len(), 2);
    assert!(!r.contains("two"));
    assert!(r.contains("one") && r.contains("three"));
    assert_eq!(r.candidates("a/b"), vec![1, 0]);
    assert!(r.unregister("two").is_ok());
    assert!(r.unregister("never").is_ok());
    assert_eq!(r.len(), 2);
    assert!(r.register(fixed("two", &["a/b"], 9, false)).is_ok());
    assert_eq!(r.dispatch(&request("a/b")).unwrap().content, "two");
}

#[test]
fn library_extractors_can_be_registered() {
    let mut rtf: ExtractorRegistry<RtfExtractor> = ExtractorRegistry::new();
    assert!(rtf.register(RtfExtractor::new()).is_ok());
    let mut req = request("Application/RTF");
    req.content = b"{\\rtf1 Hello}".to_vec();
    let result = rtf.dispatch(&req).unwrap();
    assert_eq!(result.content, "Hello");
    assert_eq!(result.mime_type, "application/rtf");

    let mut latex: ExtractorRegistry<LatexExtractor> = ExtractorRegistry::new();
    assert!(latex.register(LatexExtractor::new()).is_ok());
    assert!(matches!(
        latex.register(LatexExtractor::new()),
        Err(RegistryError::DuplicateExtractor(_))
    ));
    let mut req = request("text/x-tex");
    req.content = b"\\section{S}".to_vec();
    assert_eq!(latex.dispatch(&req).unwrap().content, "# S");
}

#[test]
fn boxed_extractors_of_different_kinds_share_a_registry() {
    let mut r: ExtractorRegistry<Box<dyn DocumentExtractor>> = ExtractorRegistry::new();
    assert!(r.register(Box::new(RtfExtractor::new())).is_ok());
    assert!(r.register(Box::new(LatexExtractor::new())).is_ok());
    assert!(r.register(Box::new(fixed("plain", &["text/plain"], 70, true))).is_ok());
    assert_eq!(r.len(), 3);
    assert_eq!(r.descriptor(0).unwrap().name, "rtf-extractor");
    assert_eq!(r.descriptor(1).unwrap().priority, 50);
    assert_eq!(
        r.descriptor(1).unwrap().supported_mime_types,
        vec!["application/x-latex".to_string(), "text/x-tex".to_string(), "text/plain".to_string()]
    );
    assert!(r.descriptor(3).is_none());
    assert_eq!(r.candidates("text/plain"), vec![2, 1]);
    let mut req = request("text/plain");
    req.content = b"\\section{T}".to_vec();
    let result = r.dispatch(&req).unwrap();
    assert_eq!(result.content, "# T");
    let mut rtf = request("text/rtf");
    rtf.content = b"{\\rtf1 x}".to_vec();
    assert_eq!(r.dispatch(&rtf).unwrap().content, "x");
}

#[test]
fn a_box_answers_as_what_it_holds() {
    let inner = fixed("held", &["a/b", "c/d"], 7, false);
    let boxed: Box<dyn DocumentExtractor> = Box::new(fixed("held", &["a/b", "c/d"], 7, false));
    assert_eq!(boxed.name(), inner.name());
    assert_eq!(boxed.version(), inner.version());
    assert_eq!(boxed.description(), inner.description());
    assert_eq!(boxed.author(), inner.author());
    assert_eq!(boxed.supported_mime_types(), inner.supported_mime_types());
    assert_eq!(boxed.priority(), inner.priority());
    assert!(boxed.initialize().is_ok());
    assert!(boxed.shutdown().is_ok());
    let mut broken = fixed("broken", &["a/b"], 1, false);
    broken.set_up_fails = true;
    let boxed_broken: Box<Fixed> = Box::new(broken);
    assert!(matches!(
        boxed_broken.initialize(),
        Err(KreuzbergError::Other(ref m)) if m == "no set-up"
    ));
    let latex: Box<LatexExtractor> = Box::new(LatexExtractor::new());
    assert_eq!(latex.name(), "latex-extractor");
    assert_eq!(
        latex.description(),
        "Native Rust LaTeX document extractor with metadata and table support"
    );
    assert_eq!(latex.author(), "Kreuzberg Team");
    let rtf = RtfExtractor::new();
    assert_eq!(
        rtf.description(),
        "Extracts content from RTF (Rich Text Format) files with native Rust parsing"
    );
    assert_eq!(rtf.author(), "Kreuzberg Team");
}

#[test]
fn a_descriptor_holds_what_the_extractor_says() {
    let mut r: ExtractorRegistry<Fixed> = ExtractorRegistry::new();
    assert!(r.register(fixed("one", &["a/b", "c/d"], -3, false)).is_ok());
    let d = r.descriptor(0).unwrap();
    assert_eq!(d.name, "one");
    assert_eq!(d.version, "1");
    assert_eq!(d.supported_mime_types, vec!["a/b".to_string(), "c/d".to_string()]);
    assert_eq!(d.priority, -3);
}

struct Echo;

impl DocumentExtractor for Echo {
    fn name(&self) -> &str {
        "echo"
    }

    fn version(&self) -> String {
        "1".to_string()
    }

    fn initialize(&self) -> Result<(), KreuzbergError> {
        Ok(())
    }

    fn shutdown(&self) -> Result<(), KreuzbergError> {
        Ok(())
    }

    fn description(&self) -> &str {
        "echo"
    }

    fn author(&self) -> &str {
        "tests"
    }

    fn extract_bytes(
        &self,
        content: &[u8],
        mime_type: &str,
        config: &ExtractionConfig,
    ) -> Result<ExtractionResult, KreuzbergError> {
        let options: Vec<String> =
            config.options.iter().map(|(k, v)| format!("{}={}", k, v)).collect();
        let text = format!("{}:{}:{}", content.len(), mime_type, options.join(","));
        Ok(ExtractionResult::of_text(text, "other/type", Metadata::new(), Vec::new()))
    }

    fn supported_mime_types(&self) -> Vec<&'static str> {
        vec!["a/b"]
    }

    fn priority(&self) -> i32 {
        0
    }
}

#[test]
fn the_request_is_handed_to_the_extractor_as_it_is() {
    let mut r: ExtractorRegistry<Echo> = ExtractorRegistry::new();
    assert!(r.register(Echo).is_ok());
    let mut req = request(" A/B ; q=1");
    req.config.options.push(("ocr".to_string(), "off".to_string()));
    req.config.options.push(("lang".to_string(), "de".to_string()));
    let result = r.dispatch(&req).unwrap();
    assert_eq!(result.content, "4:a/b:ocr=off,lang=de");
    assert_eq!(result.mime_type, "a/b");
}
