//! Extraction of text, metadata and tables from documents of many formats.
//!
//! A request names a MIME type; the registry picks the extractors that
//! declare it and tries them by falling priority. The extractors for LaTeX,
//! RTF and EPUB read their formats themselves, character by character.

pub mod epub;
pub mod error;
pub mod latex;
pub mod lifecycle;
pub mod mime;
pub mod number;
pub mod plugins;
pub mod registry;
pub mod rtf;
pub mod scan;
pub mod text;
pub mod types;
pub mod unicode;
