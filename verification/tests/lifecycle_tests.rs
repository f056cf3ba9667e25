use kreuzberg::lifecycle::{binding_failure, Acquisition, LibraryContext, NativeLibraryState};

fn context(dir: Option<&str>) -> LibraryContext {
    LibraryContext { lib_dir: dir.map(|d| d.to_string()) }
}

fn acquire(
    state: &mut NativeLibraryState,
    set_up: &mut dyn FnMut() -> Result<LibraryContext, String>,
    label: &str,
) -> Result<LibraryContext, String> {
    match state.begin_acquire(label) {
        Acquisition::SetUp => state.finish_set_up(set_up(), label),
        Acquisition::Bind(c) => Ok(c),
        Acquisition::Fail(message) => Err(message),
    }
}

#[test]
fn test_bind_pdfium_lazy_initialization() {
    let mut state = NativeLibraryState::new();
    let result = acquire(&mut state, &mut || Ok(context(None)), "test context");
    assert!(result.is_ok(), "First bind_pdfium call should succeed");
}

#[test]
fn test_bind_pdfium_multiple_calls() {
    let mut state = NativeLibraryState::new();
    let mut set_ups = 0;
    let mut set_up = || {
        set_ups += 1;
        Ok(context(Some("/tmp/lib")))
    };
    let result1 = acquire(&mut state, &mut set_up, "test 1");
    let result2 = acquire(&mut state, &mut set_up, "test 2");
    assert!(result1.is_ok(), "First call should succeed");
    assert!(result2.is_ok(), "Second call should also succeed");
    assert_eq!(result2.unwrap().lib_dir, Some("/tmp/lib".to_string()));
    assert_eq!(set_ups, 1);
}

#[test]
fn test_bind_pdfium_error_mapping() {
    let message = binding_failure("test", "no symbol");
    assert_eq!(message, "Pdfium binding failed (test): no symbol");
}

#[test]
fn first_use_asks_for_the_set_up() {
    let state = NativeLibraryState::new();
    assert!(matches!(state.begin_acquire("c"), Acquisition::SetUp));
}

#[test]
fn failure_is_kept_and_no_set_up_is_tried_again() {
    let mut state = NativeLibraryState::new();
    let mut set_ups = 0;
    let mut set_up = || {
        set_ups += 1;
        Err("library not found".to_string())
    };
    let first = acquire(&mut state, &mut set_up, "one");
    assert_eq!(
        first.unwrap_err(),
        "Pdfium extraction failed (one): library not found"
    );
    for label in ["two", "three"] {
        let again = acquire(&mut state, &mut set_up, label);
        assert_eq!(
            again.unwrap_err(),
            format!("Pdfium initialization previously failed ({}): library not found", label)
        );
    }
    assert_eq!(set_ups, 1);
    assert!(matches!(state, NativeLibraryState::Failed(ref e) if e == "library not found"));
}

#[test]
fn a_late_outcome_changes_no_settled_state() {
    let mut state = NativeLibraryState::new();
    assert!(state.finish_set_up(Ok(context(Some("a"))), "x").is_ok());
    let kept = state.finish_set_up(Err("late".to_string()), "x").unwrap();
    assert_eq!(kept.lib_dir, Some("a".to_string()));
    assert!(matches!(state, NativeLibraryState::Initialized(ref c) if c.lib_dir == Some("a".to_string())));

    let mut failed = NativeLibraryState::Failed("first".to_string());
    let again = failed.finish_set_up(Ok(context(None)), "y");
    assert_eq!(again.unwrap_err(), "Pdfium initialization previously failed (y): first");
    assert!(matches!(failed, NativeLibraryState::Failed(ref e) if e == "first"));
}

#[test]
fn each_use_gets_a_context_of_its_own() {
    let mut state = NativeLibraryState::new();
    state.finish_set_up(Ok(context(Some("dir"))), "x").unwrap();
    let a = match state.begin_acquire("a") {
        Acquisition::Bind(c) => c,
        other => panic!("unexpected: {:?}", other),
    };
    let mut b = match state.begin_acquire("b") {
        Acquisition::Bind(c) => c,
        other => panic!("unexpected: {:?}", other),
    };
    b.lib_dir = Some("changed".to_string());
    assert_eq!(a.lib_dir, Some("dir".to_string()));
    assert!(matches!(state.begin_acquire("c"), Acquisition::Bind(ref c) if c.lib_dir == Some("dir".to_string())));
}
