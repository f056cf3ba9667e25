//! The LaTeX extractor: text, metadata and tables from a LaTeX source.

pub mod command;
pub mod content;
pub mod environment;
pub mod inline;
pub mod list;
pub mod matcher;
pub mod metadata;
pub mod tabular;

use vstd::prelude::*;
use crate::error::{ErrorView, KreuzbergError};
use crate::latex::content::{document_tables, document_text, read_document};
use crate::latex::environment::{environment_content, environment_next, read_environment};
use crate::latex::inline::{inline_content, inline_text};
use crate::latex::list::{list_lines, list_text};
use crate::latex::metadata::{
    command_args, command_content, find_command_args, find_command_content, read_metadata,
    with_document,
};
use crate::latex::tabular::{parse_table, tabular_cells};
use crate::mime::{is_plain_char, lemma_plain_is_normal, normalized};
use crate::plugins::{Answer, DocumentExtractor, VERSION};
use crate::scan::{
    brace_close, command_name_end, past, scan_brace_close, scan_command_name, step_past,
};
use crate::text::{chars_of, slice_of, string_of};
use crate::types::{
    empty_metadata, opt_text, table_markdown, tables_view, text_result, ExtractionConfig,
    ExtractionResult, ExtractionResultView, Metadata, Table,
};
use crate::unicode::{decode_utf8_lossy, utf8_lossy};

verus! {

/// The extractor for LaTeX documents.
#[derive(Debug)]
pub struct LatexExtractor;

/// What the extraction of a LaTeX source gives under a MIME type.
pub open spec fn latex_result(source: Seq<char>, mime_type: Seq<char>) -> ExtractionResultView {
    text_result(
        document_text(source),
        mime_type,
        with_document(empty_metadata(), source),
        document_tables(source),
    )
}

impl LatexExtractor {
    /// Creates a LaTeX extractor.
    pub fn new() -> (r: Self) {
        LatexExtractor
    }

    /// Parses a LaTeX source: its text, its metadata and its tables.
    pub fn extract_from_latex(content: &str) -> (r: (String, Metadata, Vec<Table>))
        ensures
            r.0@ == document_text(content@),
            r.1@ == with_document(empty_metadata(), content@),
            tables_view(r.2@) == document_tables(content@),
    {
        let mut parser = LatexParser::new(content);
        let text = parser.parse();
        assert(tables_view(parser.tables@) =~= document_tables(content@));
        (text, parser.metadata, parser.tables)
    }
}

impl Default for LatexExtractor {
    fn default() -> (r: Self) {
        LatexExtractor::new()
    }
}

impl DocumentExtractor for LatexExtractor {
    open spec fn answers(&self, answer: Answer) -> bool {
        match answer {
            Answer::Name(name) => name == "latex-extractor"@,
            Answer::Version(version) => version == VERSION@,
            Answer::Description(description) => description == "Native Rust LaTeX document extractor with metadata and table support"@,
            Answer::Author(author) => author == "Kreuzberg Team"@,
            Answer::MimeTypes(types) => types == seq!["application/x-latex"@, "text/x-tex"@, "text/plain"@],
            Answer::Priority(priority) => priority == 50,
            Answer::SetUp(outcome) => outcome is Ok,
            Answer::TornDown(outcome) => outcome is Ok,
        }
    }

    fn name(&self) -> (r: &str)
        ensures
            r@ == "latex-extractor"@,
    {
        "latex-extractor"
    }

    fn version(&self) -> (r: String)
        ensures
            r@ == VERSION@,
    {
        String::from_str(VERSION)
    }

    fn initialize(&self) -> (r: Result<(), KreuzbergError>)
        ensures
            r is Ok,
    {
        Ok(())
    }

    fn shutdown(&self) -> (r: Result<(), KreuzbergError>)
        ensures
            r is Ok,
    {
        Ok(())
    }

    fn description(&self) -> (r: &str)
        ensures
            r@ == "Native Rust LaTeX document extractor with metadata and table support"@,
    {
        "Native Rust LaTeX document extractor with metadata and table support"
    }

    fn author(&self) -> (r: &str)
        ensures
            r@ == "Kreuzberg Team"@,
    {
        "Kreuzberg Team"
    }

    open spec fn extracts(
        &self,
        content: Seq<u8>,
        mime_type: Seq<char>,
        config: Seq<(Seq<char>, Seq<char>)>,
        outcome: Result<ExtractionResultView, ErrorView>,
    ) -> bool {
        outcome == Ok::<ExtractionResultView, ErrorView>(
            latex_result(utf8_lossy(content), mime_type),
        )
    }

    fn extract_bytes(&self, content: &[u8], mime_type: &str, config: &ExtractionConfig) -> (r:
        Result<ExtractionResult, KreuzbergError>) {
        let source = decode_utf8_lossy(content);
        let (text, metadata, tables) = Self::extract_from_latex(source.as_str());
        Ok(ExtractionResult::of_text(text, mime_type, metadata, tables))
    }

    fn supported_mime_types(&self) -> (r: Vec<&'static str>)
        ensures
            r.deep_view() == seq!["application/x-latex"@, "text/x-tex"@, "text/plain"@],
    {
        let r = vec!["application/x-latex", "text/x-tex", "text/plain"];
        assert(r.deep_view() =~~= seq!["application/x-latex"@, "text/x-tex"@, "text/plain"@]);
        r
    }

    fn priority(&self) -> (r: i32)
        ensures
            r == 50,
    {
        50
    }
}

/// Each MIME type that the LaTeX extractor declares is its own normal form,
/// so that a request for it finds the extractor.
pub proof fn lemma_latex_types_are_normal()
    ensures
        normalized("application/x-latex"@) == "application/x-latex"@,
        normalized("text/x-tex"@) == "text/x-tex"@,
        normalized("text/plain"@) == "text/plain"@,
{
    reveal_strlit("application/x-latex");
    assert("application/x-latex"@.len() == 19);
    assert(is_plain_char("application/x-latex"@[0]));
    assert(is_plain_char("application/x-latex"@[1]));
    assert(is_plain_char("application/x-latex"@[2]));
    assert(is_plain_char("application/x-latex"@[3]));
    assert(is_plain_char("application/x-latex"@[4]));
    assert(is_plain_char("application/x-latex"@[5]));
    assert(is_plain_char("application/x-latex"@[6]));
    assert(is_plain_char("application/x-latex"@[7]));
    assert(is_plain_char("application/x-latex"@[8]));
    assert(is_plain_char("application/x-latex"@[9]));
    assert(is_plain_char("application/x-latex"@[10]));
    assert(is_plain_char("application/x-latex"@[11]));
    assert(is_plain_char("application/x-latex"@[12]));
    assert(is_plain_char("application/x-latex"@[13]));
    assert(is_plain_char("application/x-latex"@[14]));
    assert(is_plain_char("application/x-latex"@[15]));
    assert(is_plain_char("application/x-latex"@[16]));
    assert(is_plain_char("application/x-latex"@[17]));
    assert(is_plain_char("application/x-latex"@[18]));
    lemma_plain_is_normal("application/x-latex"@);
    reveal_strlit("text/x-tex");
    assert("text/x-tex"@.len() == 10);
    assert(is_plain_char("text/x-tex"@[0]));
    assert(is_plain_char("text/x-tex"@[1]));
    assert(is_plain_char("text/x-tex"@[2]));
    assert(is_plain_char("text/x-tex"@[3]));
    assert(is_plain_char("text/x-tex"@[4]));
    assert(is_plain_char("text/x-tex"@[5]));
    assert(is_plain_char("text/x-tex"@[6]));
    assert(is_plain_char("text/x-tex"@[7]));
    assert(is_plain_char("text/x-tex"@[8]));
    assert(is_plain_char("text/x-tex"@[9]));
    lemma_plain_is_normal("text/x-tex"@);
    reveal_strlit("text/plain");
    assert("text/plain"@.len() == 10);
    assert(is_plain_char("text/plain"@[0]));
    assert(is_plain_char("text/plain"@[1]));
    assert(is_plain_char("text/plain"@[2]));
    assert(is_plain_char("text/plain"@[3]));
    assert(is_plain_char("text/plain"@[4]));
    assert(is_plain_char("text/plain"@[5]));
    assert(is_plain_char("text/plain"@[6]));
    assert(is_plain_char("text/plain"@[7]));
    assert(is_plain_char("text/plain"@[8]));
    assert(is_plain_char("text/plain"@[9]));
    lemma_plain_is_normal("text/plain"@);
}

/// A parser over one LaTeX source, with the metadata and tables read so far.
#[derive(Debug)]
pub struct LatexParser {
    pub content: String,
    pub metadata: Metadata,
    pub tables: Vec<Table>,
}

impl LatexParser {
    /// A parser over a source, with nothing read yet.
    pub fn new(content: &str) -> (p: Self)
        ensures
            p.content@ == content@,
            p.metadata@ == empty_metadata(),
            p.tables@.len() == 0,
    {
        LatexParser {
            content: String::from_str(content),
            metadata: Metadata::new(),
            tables: Vec::new(),
        }
    }

    /// Reads the metadata and the body of the source, and returns its text.
    pub fn parse(&mut self) -> (text: String)
        ensures
            text@ == document_text(old(self).content@),
            final(self).content@ == old(self).content@,
            final(self).metadata@ == with_document(old(self).metadata@, old(self).content@),
            tables_view(final(self).tables@) == tables_view(old(self).tables@) + document_tables(
                old(self).content@,
            ),
    {
        self.extract_metadata();
        self.extract_content()
    }

    /// Reads the metadata commands of the source into the metadata.
    pub fn extract_metadata(&mut self)
        ensures
            final(self).content@ == old(self).content@,
            final(self).metadata@ == with_document(old(self).metadata@, old(self).content@),
            final(self).tables == old(self).tables,
    {
        read_metadata(self.content.as_str(), &mut self.metadata);
    }

    /// The argument of the last occurrence of a command with one argument.
    pub fn extract_command_content(&self, command: &str) -> (r: Option<String>)
        ensures
            opt_text(r) == command_content(self.content@, command@),
    {
        find_command_content(self.content.as_str(), command)
    }

    /// The argument in braces of the last occurrence of a command that may
    /// have an optional argument in brackets before it.
    pub fn extract_command_with_args(&self, command: &str) -> (r: Option<String>)
        ensures
            opt_text(r) == command_args(self.content@, command@),
    {
        find_command_args(self.content.as_str(), command)
    }

    /// Reads the body of the source: returns its text and adds its tables.
    pub fn extract_content(&mut self) -> (text: String)
        ensures
            text@ == document_text(old(self).content@),
            final(self).content@ == old(self).content@,
            final(self).metadata == old(self).metadata,
            tables_view(final(self).tables@) == tables_view(old(self).tables@) + document_tables(
                old(self).content@,
            ),
    {
        let chars = chars_of(self.content.as_str());
        let (text, mut tables) = read_document(&chars);
        let ghost held = self.tables@;
        let ghost found = tables@;
        self.tables.append(&mut tables);
        assert(tables_view(self.tables@) =~= tables_view(held) + tables_view(found));
        string_of(&text)
    }

    /// Reads the command name that starts at `pos`: the name and the
    /// position behind it.
    pub fn read_command_name(chars: &Vec<char>, pos: usize) -> (r: (Vec<char>, usize))
        requires
            pos <= chars.len(),
        ensures
            r.1 == command_name_end(chars@, pos as int),
            r.0@ == chars@.subrange(pos as int, r.1 as int),
            pos <= r.1 <= chars.len(),
    {
        let end = scan_command_name(chars, pos);
        (slice_of(chars, pos, end), end)
    }

    /// Reads the content of a group from `pos`, behind its opening brace:
    /// the content and the position behind the closing brace.
    pub fn read_braced_content(chars: &Vec<char>, pos: usize) -> (r: (Vec<char>, usize))
        requires
            pos <= chars.len(),
        ensures
            r.0@ == chars@.subrange(pos as int, brace_close(chars@, pos as int, 1)),
            r.1 == past(chars@, brace_close(chars@, pos as int, 1)),
            pos <= r.1 <= chars.len(),
    {
        let close = scan_brace_close(chars, pos);
        (slice_of(chars, pos, close), step_past(chars, close))
    }

    /// The inline text of the content of a group.
    pub fn process_braced_content(content: &Vec<char>) -> (r: Vec<char>)
        ensures
            r@ == inline_text(content@),
    {
        inline_content(content)
    }

    /// The inline text of an argument.
    pub fn process_inline_content(content: &Vec<char>) -> (r: Vec<char>)
        ensures
            r@ == inline_text(content@),
    {
        inline_content(content)
    }

    /// Reads the environment whose body starts at `pos`: its raw content and
    /// the position behind its end.
    pub fn extract_environment(chars: &Vec<char>, pos: usize, env_name: &str) -> (r: (
        Vec<char>,
        usize,
    ))
        requires
            pos <= chars.len(),
        ensures
            r.0@ == environment_content(chars@, pos as int, env_name@),
            r.1 == environment_next(chars@, pos as int, env_name@),
            pos <= r.1 <= chars.len(),
    {
        let env = chars_of(env_name);
        read_environment(chars, pos, &env)
    }

    /// The lines of the content of a list environment.
    pub fn parse_list(content: &str, list_type: &str) -> (r: String)
        ensures
            r@ == list_text(content@, list_type@),
    {
        let chars = chars_of(content);
        let kind = chars_of(list_type);
        let lines = list_lines(&chars, &kind);
        string_of(&lines)
    }

    /// The table of the content of a `tabular` environment and its
    /// rendering, or nothing where the content holds no cell.
    pub fn parse_tabular(content: &str) -> (r: Option<(String, Table)>)
        ensures
            match r {
                None => tabular_cells(content@).len() == 0,
                Some((markdown, table)) => {
                    &&& tabular_cells(content@).len() > 0
                    &&& markdown@ == table_markdown(tabular_cells(content@))
                    &&& table@.cells == tabular_cells(content@)
                    &&& table@.markdown == table_markdown(tabular_cells(content@))
                    &&& table@.page_number == 1
                },
            },
    {
        let chars = chars_of(content);
        match parse_table(&chars) {
            Some((markdown, table)) => Some((string_of(&markdown), table)),
            None => None,
        }
    }
}

} // verus!
