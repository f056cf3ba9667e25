//! The EPUB extractor: text and metadata from an EPUB document.

pub mod book;
pub mod xhtml;

use vstd::prelude::*;
use crate::epub::book::{
    book_metadata, book_text, read_chapters, read_metadata, with_text, EpubBook, EpubBookView,
};
use crate::epub::xhtml::{text_from_xhtml, xhtml_text};
use crate::error::KreuzbergError;
use crate::mime::{is_plain_char, lemma_plain_is_normal, normalized};
use crate::plugins::VERSION;
use crate::types::{
    opt_text, text_result, ExtractionResult, ExtractionResultView, Metadata, MetadataMap,
    MetadataValue, MetadataView, Table,
};

verus! {

/// The extractor for EPUB documents.
#[derive(Debug)]
pub struct EpubExtractor;

/// What the extraction of an EPUB document gives under a MIME type: the
/// text of its chapters, and its metadata with the cover it names.
pub open spec fn epub_result(book: EpubBookView, mime_type: Seq<char>) -> ExtractionResultView {
    text_result(
        book_text(book.chapters),
        mime_type,
        MetadataView {
            date: None,
            additional: with_text(book_metadata(book), "cover"@, book.cover_id),
        },
        Seq::empty(),
    )
}

impl EpubExtractor {
    /// Creates an EPUB extractor.
    pub fn new() -> (r: Self) {
        EpubExtractor
    }

    /// The text of the chapters of a document.
    pub fn extract_content(epub: &EpubBook) -> (r: String)
        ensures
            r@ == book_text(epub@.chapters),
    {
        read_chapters(epub)
    }

    /// The plain text of an XHTML document.
    pub fn extract_text_from_xhtml(html: &str) -> (r: String)
        ensures
            r@ == xhtml_text(html@),
    {
        text_from_xhtml(html)
    }

    /// The metadata of a document.
    pub fn extract_metadata(epub: &EpubBook) -> (m: MetadataMap)
        ensures
            m@ == book_metadata(epub@),
    {
        read_metadata(epub)
    }

    /// The identifier of the cover image of a document, where it names one.
    pub fn detect_cover(epub: &EpubBook) -> (r: Option<String>)
        ensures
            opt_text(r) == epub@.cover_id,
    {
        match &epub.cover_id {
            Some(id) => Some(id.clone()),
            None => None,
        }
    }

    /// Extracts a document that was read from its archive.
    pub fn extract_book(epub: &EpubBook, mime_type: &str) -> (r: ExtractionResult)
        ensures
            r@ == epub_result(epub@, mime_type@),
    {
        let content = Self::extract_content(epub);
        let mut additional = Self::extract_metadata(epub);
        match Self::detect_cover(epub) {
            Some(cover) => {
                additional.insert(String::from_str("cover"), MetadataValue::Text(cover));
            },
            None => {},
        }
        let tables: Vec<Table> = Vec::new();
        assert(crate::types::tables_view(tables@) =~= Seq::empty());
        ExtractionResult::of_text(
            content,
            mime_type,
            Metadata { date: None, additional },
            tables,
        )
    }

    /// The name of the extractor.
    pub fn name(&self) -> (r: &'static str)
        ensures
            r@ == "epub-extractor"@,
    {
        "epub-extractor"
    }

    /// The version of the extractor.
    pub fn version(&self) -> (r: String)
        ensures
            r@ == VERSION@,
    {
        String::from_str(VERSION)
    }

    /// The set-up hook: nothing is to be set up.
    pub fn initialize(&self) -> (r: Result<(), KreuzbergError>)
        ensures
            r is Ok,
    {
        Ok(())
    }

    /// The tear-down hook: nothing is to be torn down.
    pub fn shutdown(&self) -> (r: Result<(), KreuzbergError>)
        ensures
            r is Ok,
    {
        Ok(())
    }

    /// What the extractor does, in words.
    pub fn description(&self) -> (r: &'static str)
        ensures
            r@ == "Extracts content and metadata from EPUB documents (native Rust implementation)"@,
    {
        "Extracts content and metadata from EPUB documents (native Rust implementation)"
    }

    /// Who wrote the extractor.
    pub fn author(&self) -> (r: &'static str)
        ensures
            r@ == "Kreuzberg Team"@,
    {
        "Kreuzberg Team"
    }

    /// The MIME types of EPUB documents.
    pub fn supported_mime_types(&self) -> (r: Vec<&'static str>)
        ensures
            r.deep_view() == seq![
                "application/epub+zip"@,
                "application/x-epub+zip"@,
                "application/vnd.epub+zip"@,
            ],
    {
        let r = vec!["application/epub+zip", "application/x-epub+zip", "application/vnd.epub+zip"];
        assert(r.deep_view() =~~= seq![
            "application/epub+zip"@,
            "application/x-epub+zip"@,
            "application/vnd.epub+zip"@,
        ]);
        r
    }

    /// The priority of the extractor.
    pub fn priority(&self) -> (r: i32)
        ensures
            r == 60,
    {
        60
    }
}

impl Default for EpubExtractor {
    fn default() -> (r: Self) {
        EpubExtractor::new()
    }
}

/// Each MIME type of EPUB documents is its own normal form.
pub proof fn lemma_epub_types_are_normal()
    ensures
        normalized("application/epub+zip"@) == "application/epub+zip"@,
        normalized("application/x-epub+zip"@) == "application/x-epub+zip"@,
        normalized("application/vnd.epub+zip"@) == "application/vnd.epub+zip"@,
{
    reveal_strlit("application/epub+zip");
    assert("application/epub+zip"@.len() == 20);
    assert(is_plain_char("application/epub+zip"@[0]));
    assert(is_plain_char("application/epub+zip"@[1]));
    assert(is_plain_char("application/epub+zip"@[2]));
    assert(is_plain_char("application/epub+zip"@[3]));
    assert(is_plain_char("application/epub+zip"@[4]));
    assert(is_plain_char("application/epub+zip"@[5]));
    assert(is_plain_char("application/epub+zip"@[6]));
    assert(is_plain_char("application/epub+zip"@[7]));
    assert(is_plain_char("application/epub+zip"@[8]));
    assert(is_plain_char("application/epub+zip"@[9]));
    assert(is_plain_char("application/epub+zip"@[10]));
    assert(is_plain_char("application/epub+zip"@[11]));
    assert(is_plain_char("application/epub+zip"@[12]));
    assert(is_plain_char("application/epub+zip"@[13]));
    assert(is_plain_char("application/epub+zip"@[14]));
    assert(is_plain_char("application/epub+zip"@[15]));
    assert(is_plain_char("application/epub+zip"@[16]));
    assert(is_plain_char("application/epub+zip"@[17]));
    assert(is_plain_char("application/epub+zip"@[18]));
    assert(is_plain_char("application/epub+zip"@[19]));
    lemma_plain_is_normal("application/epub+zip"@);
    reveal_strlit("application/x-epub+zip");
    assert("application/x-epub+zip"@.len() == 22);
    assert(is_plain_char("application/x-epub+zip"@[0]));
    assert(is_plain_char("application/x-epub+zip"@[1]));
    assert(is_plain_char("application/x-epub+zip"@[2]));
    assert(is_plain_char("application/x-epub+zip"@[3]));
    assert(is_plain_char("application/x-epub+zip"@[4]));
    assert(is_plain_char("application/x-epub+zip"@[5]));
    assert(is_plain_char("application/x-epub+zip"@[6]));
    assert(is_plain_char("application/x-epub+zip"@[7]));
    assert(is_plain_char("application/x-epub+zip"@[8]));
    assert(is_plain_char("application/x-epub+zip"@[9]));
    assert(is_plain_char("application/x-epub+zip"@[10]));
    assert(is_plain_char("application/x-epub+zip"@[11]));
    assert(is_plain_char("application/x-epub+zip"@[12]));
    assert(is_plain_char("application/x-epub+zip"@[13]));
    assert(is_plain_char("application/x-epub+zip"@[14]));
    assert(is_plain_char("application/x-epub+zip"@[15]));
    assert(is_plain_char("application/x-epub+zip"@[16]));
    assert(is_plain_char("application/x-epub+zip"@[17]));
    assert(is_plain_char("application/x-epub+zip"@[18]));
    assert(is_plain_char("application/x-epub+zip"@[19]));
    assert(is_plain_char("application/x-epub+zip"@[20]));
    assert(is_plain_char("application/x-epub+zip"@[21]));
    lemma_plain_is_normal("application/x-epub+zip"@);
    reveal_strlit("application/vnd.epub+zip");
    assert("application/vnd.epub+zip"@.len() == 24);
    assert(is_plain_char("application/vnd.epub+zip"@[0]));
    assert(is_plain_char("application/vnd.epub+zip"@[1]));
    assert(is_plain_char("application/vnd.epub+zip"@[2]));
    assert(is_plain_char("application/vnd.epub+zip"@[3]));
    assert(is_plain_char("application/vnd.epub+zip"@[4]));
    assert(is_plain_char("application/vnd.epub+zip"@[5]));
    assert(is_plain_char("application/vnd.epub+zip"@[6]));
    assert(is_plain_char("application/vnd.epub+zip"@[7]));
    assert(is_plain_char("application/vnd.epub+zip"@[8]));
    assert(is_plain_char("application/vnd.epub+zip"@[9]));
    assert(is_plain_char("application/vnd.epub+zip"@[10]));
    assert(is_plain_char("application/vnd.epub+zip"@[11]));
    assert(is_plain_char("application/vnd.epub+zip"@[12]));
    assert(is_plain_char("application/vnd.epub+zip"@[13]));
    assert(is_plain_char("application/vnd.epub+zip"@[14]));
    assert(is_plain_char("application/vnd.epub+zip"@[15]));
    assert(is_plain_char("application/vnd.epub+zip"@[16]));
    assert(is_plain_char("application/vnd.epub+zip"@[17]));
    assert(is_plain_char("application/vnd.epub+zip"@[18]));
    assert(is_plain_char("application/vnd.epub+zip"@[19]));
    assert(is_plain_char("application/vnd.epub+zip"@[20]));
    assert(is_plain_char("application/vnd.epub+zip"@[21]));
    assert(is_plain_char("application/vnd.epub+zip"@[22]));
    assert(is_plain_char("application/vnd.epub+zip"@[23]));
    lemma_plain_is_normal("application/vnd.epub+zip"@);
}

} // verus!
