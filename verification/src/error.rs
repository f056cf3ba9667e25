//! The errors that an extraction can end in, and how each is worded.

use vstd::prelude::*;
use crate::types::opt_text;

verus! {

/// The closed set of errors.
#[derive(Debug)]
pub enum KreuzbergError {
    Validation { message: String, source: Option<String> },
    UnsupportedFormat(String),
    Parsing { message: String, source: Option<String> },
    Io(String),
    Ocr { message: String, source: Option<String> },
    Plugin { message: String, plugin_name: String },
    LockPoisoned(String),
    Cache { message: String, source: Option<String> },
    ImageProcessing { message: String, source: Option<String> },
    Serialization { message: String, source: Option<String> },
    MissingDependency(String),
    Other(String),
}

/// The mathematical form of an error.
pub enum ErrorView {
    Validation { message: Seq<char>, source: Option<Seq<char>> },
    UnsupportedFormat(Seq<char>),
    Parsing { message: Seq<char>, source: Option<Seq<char>> },
    Io(Seq<char>),
    Ocr { message: Seq<char>, source: Option<Seq<char>> },
    Plugin { message: Seq<char>, plugin_name: Seq<char> },
    LockPoisoned(Seq<char>),
    Cache { message: Seq<char>, source: Option<Seq<char>> },
    ImageProcessing { message: Seq<char>, source: Option<Seq<char>> },
    Serialization { message: Seq<char>, source: Option<Seq<char>> },
    MissingDependency(Seq<char>),
    Other(Seq<char>),
}

impl View for KreuzbergError {
    type V = ErrorView;

    open spec fn view(&self) -> ErrorView {
        match self {
            KreuzbergError::Validation { message, source } => ErrorView::Validation {
                message: message@,
                source: opt_text(*source),
            },
            KreuzbergError::UnsupportedFormat(m) => ErrorView::UnsupportedFormat(m@),
            KreuzbergError::Parsing { message, source } => ErrorView::Parsing {
                message: message@,
                source: opt_text(*source),
            },
            KreuzbergError::Io(m) => ErrorView::Io(m@),
            KreuzbergError::Ocr { message, source } => ErrorView::Ocr {
                message: message@,
                source: opt_text(*source),
            },
            KreuzbergError::Plugin { message, plugin_name } => ErrorView::Plugin {
                message: message@,
                plugin_name: plugin_name@,
            },
            KreuzbergError::LockPoisoned(m) => ErrorView::LockPoisoned(m@),
            KreuzbergError::Cache { message, source } => ErrorView::Cache {
                message: message@,
                source: opt_text(*source),
            },
            KreuzbergError::ImageProcessing { message, source } => ErrorView::ImageProcessing {
                message: message@,
                source: opt_text(*source),
            },
            KreuzbergError::Serialization { message, source } => ErrorView::Serialization {
                message: message@,
                source: opt_text(*source),
            },
            KreuzbergError::MissingDependency(m) => ErrorView::MissingDependency(m@),
            KreuzbergError::Other(m) => ErrorView::Other(m@),
        }
    }
}

/// The kinds of exception that a binding can raise for an error.
#[derive(Clone, Copy, Debug, PartialEq, Eq, Structural)]
pub enum ExceptionClass {
    Validation,
    Parsing,
    Ocr,
    MissingDependency,
    Cache,
    ImageProcessing,
    Plugin,
    /// The exception of the host language itself.
    Default,
}

/// A message with the source of the error behind a colon, where it has one.
pub open spec fn with_source(message: Seq<char>, source: Option<Seq<char>>) -> Seq<char> {
    match source {
        Some(s) => message + ": "@ + s,
        None => message,
    }
}

/// The message of an error: its own message and its source; for a plugin
/// error the name of the plugin comes first.
pub open spec fn error_message(e: ErrorView) -> Seq<char> {
    match e {
        ErrorView::Validation { message, source } => with_source(message, source),
        ErrorView::UnsupportedFormat(m) => m,
        ErrorView::Parsing { message, source } => with_source(message, source),
        ErrorView::Io(m) => m,
        ErrorView::Ocr { message, source } => with_source(message, source),
        ErrorView::Plugin { message, plugin_name } => "Plugin error in '"@ + plugin_name + "': "@
            + message,
        ErrorView::LockPoisoned(m) => m,
        ErrorView::Cache { message, source } => with_source(message, source),
        ErrorView::ImageProcessing { message, source } => with_source(message, source),
        ErrorView::Serialization { message, source } => with_source(message, source),
        ErrorView::MissingDependency(m) => m,
        ErrorView::Other(m) => m,
    }
}

/// The name under which an error is reported.
pub open spec fn error_type(e: ErrorView) -> Seq<char> {
    match e {
        ErrorView::Io(_) => "IOError"@,
        ErrorView::Parsing { .. } => "ParsingError"@,
        ErrorView::Ocr { .. } => "OCRError"@,
        ErrorView::Validation { .. } => "ValidationError"@,
        ErrorView::Cache { .. } => "CacheError"@,
        ErrorView::ImageProcessing { .. } => "ImageProcessingError"@,
        ErrorView::Serialization { .. } => "SerializationError"@,
        ErrorView::MissingDependency(_) => "MissingDependencyError"@,
        ErrorView::Plugin { .. } => "PluginError"@,
        ErrorView::LockPoisoned(_) => "LockPoisonedError"@,
        ErrorView::UnsupportedFormat(_) => "UnsupportedFormatError"@,
        ErrorView::Other(_) => "Error"@,
    }
}

/// The description of an error: a label for its kind and its own message,
/// without its source.
pub open spec fn error_description(e: ErrorView) -> Seq<char> {
    match e {
        ErrorView::Io(m) => "IO error: "@ + m,
        ErrorView::Parsing { message, .. } => "Parsing error: "@ + message,
        ErrorView::Ocr { message, .. } => "OCR error: "@ + message,
        ErrorView::Validation { message, .. } => "Validation error: "@ + message,
        ErrorView::Cache { message, .. } => "Cache error: "@ + message,
        ErrorView::ImageProcessing { message, .. } => "Image processing error: "@ + message,
        ErrorView::Serialization { message, .. } => "Serialization error: "@ + message,
        ErrorView::MissingDependency(m) => "Missing dependency: "@ + m,
        ErrorView::Plugin { message, plugin_name } => "Plugin error in '"@ + plugin_name
            + "': "@ + message,
        ErrorView::LockPoisoned(m) => "Lock poisoned: "@ + m,
        ErrorView::UnsupportedFormat(m) => "Unsupported format: "@ + m,
        ErrorView::Other(m) => m,
    }
}

/// The exception that stands for an error.
pub open spec fn exception_class(e: ErrorView) -> ExceptionClass {
    match e {
        ErrorView::Validation { .. } => ExceptionClass::Validation,
        ErrorView::UnsupportedFormat(_) => ExceptionClass::Validation,
        ErrorView::Parsing { .. } => ExceptionClass::Parsing,
        ErrorView::Io(_) => ExceptionClass::Default,
        ErrorView::Ocr { .. } => ExceptionClass::Ocr,
        ErrorView::Plugin { .. } => ExceptionClass::Plugin,
        ErrorView::LockPoisoned(_) => ExceptionClass::Default,
        ErrorView::Cache { .. } => ExceptionClass::Cache,
        ErrorView::ImageProcessing { .. } => ExceptionClass::ImageProcessing,
        ErrorView::Serialization { .. } => ExceptionClass::Parsing,
        ErrorView::MissingDependency(_) => ExceptionClass::MissingDependency,
        ErrorView::Other(_) => ExceptionClass::Default,
    }
}

/// The message of the exception that stands for an error.
pub open spec fn exception_message(e: ErrorView) -> Seq<char> {
    match e {
        ErrorView::LockPoisoned(_) => "Lock poisoned: "@ + error_message(e),
        _ => error_message(e),
    }
}

fn join_source(message: &String, source: &Option<String>) -> (r: String)
    ensures
        r@ == with_source(message@, opt_text(*source)),
{
    let mut r = message.clone();
    match source {
        Some(s) => {
            r.append(": ");
            r.append(s.as_str());
        },
        None => {},
    }
    r
}

fn labelled(label: &str, message: &String) -> (r: String)
    ensures
        r@ == label@ + message@,
{
    let mut r = String::from_str(label);
    r.append(message.as_str());
    r
}

fn plugin_message(plugin_name: &String, message: &String) -> (r: String)
    ensures
        r@ == "Plugin error in '"@ + plugin_name@ + "': "@ + message@,
{
    let mut r = String::from_str("Plugin error in '");
    r.append(plugin_name.as_str());
    r.append("': ");
    r.append(message.as_str());
    r
}

/// Words an error: its message with its source.
pub fn format_error_message(error: &KreuzbergError) -> (r: String)
    ensures
        r@ == error_message(error@),
{
    match error {
        KreuzbergError::Validation { message, source } => join_source(message, source),
        KreuzbergError::UnsupportedFormat(m) => m.clone(),
        KreuzbergError::Parsing { message, source } => join_source(message, source),
        KreuzbergError::Io(m) => m.clone(),
        KreuzbergError::Ocr { message, source } => join_source(message, source),
        KreuzbergError::Plugin { message, plugin_name } => plugin_message(plugin_name, message),
        KreuzbergError::LockPoisoned(m) => m.clone(),
        KreuzbergError::Cache { message, source } => join_source(message, source),
        KreuzbergError::ImageProcessing { message, source } => join_source(message, source),
        KreuzbergError::Serialization { message, source } => join_source(message, source),
        KreuzbergError::MissingDependency(m) => m.clone(),
        KreuzbergError::Other(m) => m.clone(),
    }
}

/// The name under which an error is reported, and its description.
pub fn describe_error(error: &KreuzbergError) -> (r: (&'static str, String))
    ensures
        r.0@ == error_type(error@),
        r.1@ == error_description(error@),
{
    match error {
        KreuzbergError::Io(m) => ("IOError", labelled("IO error: ", m)),
        KreuzbergError::Parsing { message, .. } => (
            "ParsingError",
            labelled("Parsing error: ", message),
        ),
        KreuzbergError::Ocr { message, .. } => ("OCRError", labelled("OCR error: ", message)),
        KreuzbergError::Validation { message, .. } => (
            "ValidationError",
            labelled("Validation error: ", message),
        ),
        KreuzbergError::Cache { message, .. } => ("CacheError", labelled("Cache error: ", message)),
        KreuzbergError::ImageProcessing { message, .. } => (
            "ImageProcessingError",
            labelled("Image processing error: ", message),
        ),
        KreuzbergError::Serialization { message, .. } => (
            "SerializationError",
            labelled("Serialization error: ", message),
        ),
        KreuzbergError::MissingDependency(m) => (
            "MissingDependencyError",
            labelled("Missing dependency: ", m),
        ),
        KreuzbergError::Plugin { message, plugin_name } => (
            "PluginError",
            plugin_message(plugin_name, message),
        ),
        KreuzbergError::LockPoisoned(m) => ("LockPoisonedError", labelled("Lock poisoned: ", m)),
        KreuzbergError::UnsupportedFormat(m) => (
            "UnsupportedFormatError",
            labelled("Unsupported format: ", m),
        ),
        KreuzbergError::Other(m) => ("Error", m.clone()),
    }
}

/// The exception that stands for an error, and its message.
pub fn exception_for(error: &KreuzbergError) -> (r: (ExceptionClass, String))
    ensures
        r.0 == exception_class(error@),
        r.1@ == exception_message(error@),
{
    let message = format_error_message(error);
    match error {
        KreuzbergError::Validation { .. } => (ExceptionClass::Validation, message),
        KreuzbergError::UnsupportedFormat(_) => (ExceptionClass::Validation, message),
        KreuzbergError::Parsing { .. } => (ExceptionClass::Parsing, message),
        KreuzbergError::Io(_) => (ExceptionClass::Default, message),
        KreuzbergError::Ocr { .. } => (ExceptionClass::Ocr, message),
        KreuzbergError::Plugin { .. } => (ExceptionClass::Plugin, message),
        KreuzbergError::LockPoisoned(_) => (
            ExceptionClass::Default,
            labelled("Lock poisoned: ", &message),
        ),
        KreuzbergError::Cache { .. } => (ExceptionClass::Cache, message),
        KreuzbergError::ImageProcessing { .. } => (ExceptionClass::ImageProcessing, message),
        KreuzbergError::Serialization { .. } => (ExceptionClass::Parsing, message),
        KreuzbergError::MissingDependency(_) => (ExceptionClass::MissingDependency, message),
        KreuzbergError::Other(_) => (ExceptionClass::Default, message),
    }
}

} // verus!
