//! What an extractor is: a named unit that turns the bytes of some MIME
//! types into an extraction result.

use vstd::prelude::*;
use crate::error::{ErrorView, KreuzbergError};
use crate::types::{ExtractionConfig, ExtractionResult, ExtractionResultView};

verus! {

/// The version that the extractors of this library report.
pub const VERSION: &'static str = "0.1.0";

/// The mathematical form of the outcome of a call that can fail.
pub open spec fn outcome_view(r: Result<ExtractionResult, KreuzbergError>) -> Result<
    ExtractionResultView,
    ErrorView,
> {
    match r {
        Ok(v) => Ok(v@),
        Err(e) => Err(e@),
    }
}

/// The mathematical form of the outcome of a hook.
pub open spec fn hook_view(r: Result<(), KreuzbergError>) -> Result<(), ErrorView> {
    match r {
        Ok(()) => Ok(()),
        Err(e) => Err(e@),
    }
}

/// What an extractor can say of itself, and what its hooks can come to.
pub enum Answer {
    Name(Seq<char>),
    Version(Seq<char>),
    Description(Seq<char>),
    Author(Seq<char>),
    MimeTypes(Seq<Seq<char>>),
    Priority(int),
    SetUp(Result<(), ErrorView>),
    TornDown(Result<(), ErrorView>),
}

/// An extractor: a named, versioned unit with a set-up and a tear-down
/// hook, which extracts documents of the MIME types it declares.
pub trait DocumentExtractor {
    /// Which answers the extractor gives when it is asked about itself or
    /// when one of its hooks is called. An extractor that does not say
    /// promises nothing.
    open spec fn answers(&self, answer: Answer) -> bool {
        true
    }

    /// The name of the extractor, unique within a registry.
    fn name(&self) -> (r: &str)
        ensures
            self.answers(Answer::Name(r@)),
    ;

    fn version(&self) -> (r: String)
        ensures
            self.answers(Answer::Version(r@)),
    ;

    /// The set-up hook, called once when the extractor is registered.
    fn initialize(&self) -> (r: Result<(), KreuzbergError>)
        ensures
            self.answers(Answer::SetUp(hook_view(r))),
    ;

    /// The tear-down hook, called when the extractor is unregistered.
    fn shutdown(&self) -> (r: Result<(), KreuzbergError>)
        ensures
            self.answers(Answer::TornDown(hook_view(r))),
    ;

    fn description(&self) -> (r: &str)
        ensures
            self.answers(Answer::Description(r@)),
    ;

    fn author(&self) -> (r: &str)
        ensures
            self.answers(Answer::Author(r@)),
    ;

    /// What holds of the outcome of an extraction of given bytes under a
    /// given MIME type and a given configuration. An extractor that does
    /// not say promises nothing.
    open spec fn extracts(
        &self,
        content: Seq<u8>,
        mime_type: Seq<char>,
        config: Seq<(Seq<char>, Seq<char>)>,
        outcome: Result<ExtractionResultView, ErrorView>,
    ) -> bool {
        true
    }

    /// Extracts a document.
    fn extract_bytes(&self, content: &[u8], mime_type: &str, config: &ExtractionConfig) -> (r:
        Result<ExtractionResult, KreuzbergError>)
        ensures
            self.extracts(content@, mime_type@, config@, outcome_view(r)),
    ;

    /// The MIME types that the extractor declares.
    fn supported_mime_types(&self) -> (r: Vec<&'static str>)
        ensures
            self.answers(Answer::MimeTypes(r.deep_view())),
    ;

    /// The priority of the extractor: the higher, the more it is preferred.
    fn priority(&self) -> (r: i32)
        ensures
            self.answers(Answer::Priority(r as int)),
    ;
}

/// A boxed extractor is an extractor: every call goes to what the box
/// holds, and the box gives the answers that it gives.
impl<T: DocumentExtractor + ?Sized> DocumentExtractor for Box<T> {
    open spec fn answers(&self, answer: Answer) -> bool {
        (**self).answers(answer)
    }

    fn name(&self) -> (r: &str) {
        (**self).name()
    }

    fn version(&self) -> (r: String) {
        (**self).version()
    }

    fn initialize(&self) -> (r: Result<(), KreuzbergError>) {
        (**self).initialize()
    }

    fn shutdown(&self) -> (r: Result<(), KreuzbergError>) {
        (**self).shutdown()
    }

    fn description(&self) -> (r: &str) {
        (**self).description()
    }

    fn author(&self) -> (r: &str) {
        (**self).author()
    }

    open spec fn extracts(
        &self,
        content: Seq<u8>,
        mime_type: Seq<char>,
        config: Seq<(Seq<char>, Seq<char>)>,
        outcome: Result<ExtractionResultView, ErrorView>,
    ) -> bool {
        (**self).extracts(content, mime_type, config, outcome)
    }

    fn extract_bytes(&self, content: &[u8], mime_type: &str, config: &ExtractionConfig) -> (r:
        Result<ExtractionResult, KreuzbergError>) {
        (**self).extract_bytes(content, mime_type, config)
    }

    fn supported_mime_types(&self) -> (r: Vec<&'static str>) {
        (**self).supported_mime_types()
    }

    fn priority(&self) -> (r: i32) {
        (**self).priority()
    }
}

} // verus!
