//! The RTF extractor: plain text from a Rich Text Format document.

use vstd::prelude::*;
use crate::error::{ErrorView, KreuzbergError};
use crate::mime::{is_plain_char, lemma_plain_is_normal, normalized};
use crate::number::{hex_byte, parse_hex_byte, parse_i32, parse_int};
use crate::plugins::{Answer, DocumentExtractor, VERSION};
use crate::scan::{has_class, in_class, lemma_run_end_bounds, run_end, scan_run, CharClass};
use crate::text::{chars_of, slice_of, string_of, trim, trimmed};
use crate::types::{
    empty_metadata, text_result, ExtractionConfig, ExtractionResult, ExtractionResultView,
    Metadata,
};
use crate::unicode::{decode_utf8_lossy, is_scalar_value, utf8_lossy, white_space};

verus! {

/// What one step over an RTF document emits and where reading goes on.
pub struct RtfStep {
    pub text: Seq<char>,
    pub next: int,
}

/// The character of a byte under the Latin-1 code page: the character with
/// the code of the byte.
pub open spec fn latin1(code: int) -> char {
    code as u8 as char
}

/// The character of a numeric Unicode escape: a negative number stands for
/// the code that is 65536 higher; a number that is no code of a character
/// stands for nothing.
pub open spec fn unicode_char(n: int) -> Option<char> {
    let code = if n < 0 {
        n + 65536
    } else {
        n
    };
    if 0 <= code <= 0x10FFFF && is_scalar_value(code as u32) {
        Some(code as u32 as char)
    } else {
        None
    }
}

/// A hexadecimal escape, with `pos` behind the apostrophe: the two
/// characters that follow are taken, and give a character where they denote
/// a byte.
pub open spec fn hex_step(s: Seq<char>, pos: int) -> RtfStep {
    if pos + 1 < s.len() {
        RtfStep {
            text: match hex_byte(s[pos], s[pos + 1]) {
                Some(code) => seq![latin1(code)],
                None => Seq::empty(),
            },
            next: pos + 2,
        }
    } else {
        RtfStep { text: Seq::empty(), next: s.len() as int }
    }
}

/// A Unicode escape, with `pos` behind the `u`: the digits and minus signs
/// that follow are taken, and give a character where they denote one.
pub open spec fn unicode_step(s: Seq<char>, pos: int) -> RtfStep {
    let end = run_end(s, pos, CharClass::Number);
    RtfStep {
        text: match parse_i32(s.subrange(pos, end)) {
            Some(n) => match unicode_char(n) {
                Some(c) => seq![c],
                None => Seq::empty(),
            },
            None => Seq::empty(),
        },
        next: end,
    }
}

/// The end of a control word that starts at `pos`: behind its letters and
/// numbers, and behind a minus sign with the digits of a negative parameter.
pub open spec fn control_word_end(s: Seq<char>, pos: int) -> int {
    let end = run_end(s, pos, CharClass::Alphanumeric);
    if 0 <= end < s.len() && s[end] == '-' {
        run_end(s, end + 1, CharClass::Digit)
    } else {
        end
    }
}

/// Whether a Unicode escape starts at `pos`, behind a backslash: a `u` with
/// a digit or a minus sign behind it.
pub open spec fn is_unicode_escape(s: Seq<char>, pos: int) -> bool {
    0 <= pos && pos + 1 < s.len() && s[pos] == 'u' && in_class(CharClass::Number, s[pos + 1])
}

/// The space that parts what follows from the text so far: none at the
/// start of the text or behind a space.
pub open spec fn separator(out: Seq<char>) -> Seq<char> {
    if out.len() > 0 && out.last() != ' ' {
        seq![' ']
    } else {
        Seq::empty()
    }
}

/// One step at `pos`, with `out` the text so far. A backslash escapes a
/// backslash or a brace, starts a hexadecimal or a Unicode escape, or starts
/// a control word, which is skipped with its parameter. A brace and a blank give a separating
/// space. Any other character is text.
pub open spec fn rtf_step(s: Seq<char>, pos: int, out: Seq<char>) -> RtfStep {
    let c = s[pos];
    if c == '\\' {
        if pos + 1 >= s.len() {
            RtfStep { text: Seq::empty(), next: pos + 1 }
        } else if s[pos + 1] == '\\' || s[pos + 1] == '{' || s[pos + 1] == '}' {
            RtfStep { text: seq![s[pos + 1]], next: pos + 2 }
        } else if s[pos + 1] == '\'' {
            hex_step(s, pos + 2)
        } else if is_unicode_escape(s, pos + 1) {
            unicode_step(s, pos + 2)
        } else {
            RtfStep { text: Seq::empty(), next: control_word_end(s, pos + 1) }
        }
    } else if c == '{' || c == '}' || c == ' ' || c == '\t' || c == '\n' || c == '\r' {
        RtfStep { text: separator(out), next: pos + 1 }
    } else {
        RtfStep { text: seq![c], next: pos + 1 }
    }
}

/// Every step moves forward and ends inside the text.
pub proof fn lemma_rtf_step_bounds(s: Seq<char>, pos: int, out: Seq<char>)
    requires
        0 <= pos < s.len(),
    ensures
        pos < rtf_step(s, pos, out).next <= s.len(),
{
    if pos + 1 < s.len() {
        lemma_run_end_bounds(s, pos + 1, CharClass::Alphanumeric);
        let end = run_end(s, pos + 1, CharClass::Alphanumeric);
        if end < s.len() {
            lemma_run_end_bounds(s, end + 1, CharClass::Digit);
        }
        lemma_run_end_bounds(s, pos + 2, CharClass::Number);
    }
}

/// The text that the steps from `pos` on add to `out`.
pub open spec fn rtf_run(s: Seq<char>, pos: int, out: Seq<char>) -> Seq<char>
    decreases s.len() - pos,
{
    if pos < 0 || pos >= s.len() {
        out
    } else {
        let step = rtf_step(s, pos, out);
        proof {
            lemma_rtf_step_bounds(s, pos, out);
        }
        rtf_run(s, step.next, out + step.text)
    }
}

/// The words of a text joined by single spaces: whitespace is dropped, and
/// one space stands wherever whitespace parted two words.
pub open spec fn squeezed(s: Seq<char>) -> Seq<char>
    decreases s.len(),
{
    if s.len() == 0 {
        Seq::empty()
    } else if white_space(s.last()) {
        squeezed(s.drop_last())
    } else if squeezed(s.drop_last()).len() > 0 && white_space(s[s.len() - 2]) {
        squeezed(s.drop_last()).push(' ').push(s.last())
    } else {
        squeezed(s.drop_last()).push(s.last())
    }
}

/// The plain text of an RTF document.
pub open spec fn rtf_text(s: Seq<char>) -> Seq<char> {
    trimmed(squeezed(rtf_run(s, 0, Seq::empty())))
}

/// Re-running the extraction on the same document gives the same text.
pub proof fn lemma_rtf_deterministic(a: Seq<char>, b: Seq<char>)
    requires
        a == b,
    ensures
        rtf_text(a) == rtf_text(b),
{
}

fn byte_char(code: u8) -> (c: char)
    ensures
        c == latin1(code as int),
{
    code as char
}

fn scalar_char(n: i32) -> (r: Option<char>)
    ensures
        r == unicode_char(n as int),
{
    let code: i64 = if n < 0 {
        n as i64 + 65536
    } else {
        n as i64
    };
    if 0 <= code && code <= 0x10FFFF {
        char::from_u32(code as u32)
    } else {
        None
    }
}

fn emit_hex(chars: &Vec<char>, pos: usize, out: &mut Vec<char>) -> (next: usize)
    requires
        pos <= chars.len(),
    ensures
        final(out)@ == old(out)@ + hex_step(chars@, pos as int).text,
        next == hex_step(chars@, pos as int).next,
        pos <= next <= chars.len(),
{
    if pos < chars.len() && pos + 1 < chars.len() {
        match parse_hex_byte(chars[pos], chars[pos + 1]) {
            Some(code) => {
                out.push(byte_char(code));
                assert(out@ == old(out)@ + seq![latin1(code as int)]);
            },
            None => {
                assert(out@ == old(out)@ + Seq::<char>::empty());
            },
        }
        pos + 2
    } else {
        assert(out@ == old(out)@ + Seq::<char>::empty());
        chars.len()
    }
}

fn emit_unicode(chars: &Vec<char>, pos: usize, out: &mut Vec<char>) -> (next: usize)
    requires
        pos <= chars.len(),
    ensures
        final(out)@ == old(out)@ + unicode_step(chars@, pos as int).text,
        next == unicode_step(chars@, pos as int).next,
        pos <= next <= chars.len(),
{
    let end = scan_run(chars, pos, CharClass::Number);
    let number = slice_of(chars, pos, end);
    let found = match parse_int(&number) {
        Some(n) => scalar_char(n),
        None => None,
    };
    match found {
        Some(c) => {
            out.push(c);
            assert(out@ == old(out)@ + seq![c]);
        },
        None => {
            assert(out@ == old(out)@ + Seq::<char>::empty());
        },
    }
    end
}

fn pass_control_word(chars: &Vec<char>, pos: usize) -> (next: usize)
    requires
        pos <= chars.len(),
    ensures
        next == control_word_end(chars@, pos as int),
        pos <= next <= chars.len(),
{
    let end = scan_run(chars, pos, CharClass::Alphanumeric);
    if end < chars.len() && chars[end] == '-' {
        scan_run(chars, end + 1, CharClass::Digit)
    } else {
        end
    }
}

fn emit_separator(out: &mut Vec<char>)
    ensures
        final(out)@ == old(out)@ + separator(old(out)@),
{
    if out.len() > 0 && out[out.len() - 1] != ' ' {
        out.push(' ');
        assert(out@ == old(out)@ + seq![' ']);
    } else {
        assert(out@ == old(out)@ + Seq::<char>::empty());
    }
}

fn emit_step(chars: &Vec<char>, pos: usize, out: &mut Vec<char>) -> (next: usize)
    requires
        pos < chars.len(),
    ensures
        final(out)@ == old(out)@ + rtf_step(chars@, pos as int, old(out)@).text,
        next == rtf_step(chars@, pos as int, old(out)@).next,
        pos < next <= chars.len(),
{
    let c = chars[pos];
    proof {
        lemma_rtf_step_bounds(chars@, pos as int, out@);
    }
    if c == '\\' {
        if pos + 1 >= chars.len() {
            assert(out@ == old(out)@ + Seq::<char>::empty());
            pos + 1
        } else {
            let n = chars[pos + 1];
            if n == '\\' || n == '{' || n == '}' {
                out.push(n);
                assert(out@ == old(out)@ + seq![n]);
                pos + 2
            } else if n == '\'' {
                emit_hex(chars, pos + 2, out)
            } else if n == 'u' && pos + 2 < chars.len() && has_class(
                CharClass::Number,
                chars[pos + 2],
            ) {
                emit_unicode(chars, pos + 2, out)
            } else {
                assert(out@ == old(out)@ + Seq::<char>::empty());
                pass_control_word(chars, pos + 1)
            }
        }
    } else if c == '{' || c == '}' || c == ' ' || c == '\t' || c == '\n' || c == '\r' {
        emit_separator(out);
        pos + 1
    } else {
        out.push(c);
        assert(out@ == old(out)@ + seq![c]);
        pos + 1
    }
}

/// Joins the words of a text by single spaces.
pub fn squeeze(text: &Vec<char>) -> (r: Vec<char>)
    ensures
        r@ == squeezed(text@),
{
    let mut r: Vec<char> = Vec::new();
    let mut i: usize = 0;
    assert(text@.take(0) =~= Seq::<char>::empty());
    while i < text.len()
        invariant
            i <= text.len(),
            r@ == squeezed(text@.take(i as int)),
        decreases text.len() - i,
    {
        let c = text[i];
        proof {
            let cur = text@.take(i + 1);
            assert(cur.drop_last() == text@.take(i as int));
            assert(cur.last() == c);
            if i >= 1 {
                assert(cur[cur.len() - 2] == text@[i - 1]);
            }
        }
        if !c.is_whitespace() {
            if r.len() > 0 && text[i - 1].is_whitespace() {
                r.push(' ');
            }
            r.push(c);
        }
        i += 1;
    }
    assert(text@.take(text.len() as int) == text@);
    r
}

/// Extracts the plain text of an RTF document.
pub fn extract_text_from_rtf(content: &str) -> (r: String)
    ensures
        r@ == rtf_text(content@),
{
    let chars = chars_of(content);
    let mut out: Vec<char> = Vec::new();
    let mut i: usize = 0;
    while i < chars.len()
        invariant
            i <= chars.len(),
            rtf_run(chars@, i as int, out@) == rtf_run(chars@, 0, Seq::empty()),
        decreases chars.len() - i,
    {
        i = emit_step(&chars, i, &mut out);
    }
    let cleaned = squeeze(&out);
    string_of(&trim(&cleaned))
}

/// Each MIME type that the RTF extractor declares is its own normal form, so
/// that a request for it finds the extractor.
pub proof fn lemma_rtf_types_are_normal()
    ensures
        normalized("application/rtf"@) == "application/rtf"@,
        normalized("text/rtf"@) == "text/rtf"@,
{
    reveal_strlit("application/rtf");
    assert("application/rtf"@.len() == 15);
    assert(is_plain_char("application/rtf"@[0]));
    assert(is_plain_char("application/rtf"@[1]));
    assert(is_plain_char("application/rtf"@[2]));
    assert(is_plain_char("application/rtf"@[3]));
    assert(is_plain_char("application/rtf"@[4]));
    assert(is_plain_char("application/rtf"@[5]));
    assert(is_plain_char("application/rtf"@[6]));
    assert(is_plain_char("application/rtf"@[7]));
    assert(is_plain_char("application/rtf"@[8]));
    assert(is_plain_char("application/rtf"@[9]));
    assert(is_plain_char("application/rtf"@[10]));
    assert(is_plain_char("application/rtf"@[11]));
    assert(is_plain_char("application/rtf"@[12]));
    assert(is_plain_char("application/rtf"@[13]));
    assert(is_plain_char("application/rtf"@[14]));
    lemma_plain_is_normal("application/rtf"@);
    reveal_strlit("text/rtf");
    assert("text/rtf"@.len() == 8);
    assert(is_plain_char("text/rtf"@[0]));
    assert(is_plain_char("text/rtf"@[1]));
    assert(is_plain_char("text/rtf"@[2]));
    assert(is_plain_char("text/rtf"@[3]));
    assert(is_plain_char("text/rtf"@[4]));
    assert(is_plain_char("text/rtf"@[5]));
    assert(is_plain_char("text/rtf"@[6]));
    assert(is_plain_char("text/rtf"@[7]));
    lemma_plain_is_normal("text/rtf"@);
}

/// The extractor for RTF documents.
#[derive(Debug)]
pub struct RtfExtractor;

impl RtfExtractor {
    /// Creates an RTF extractor.
    pub fn new() -> (r: Self) {
        RtfExtractor
    }
}

impl Default for RtfExtractor {
    fn default() -> (r: Self) {
        RtfExtractor::new()
    }
}

impl DocumentExtractor for RtfExtractor {
    open spec fn answers(&self, answer: Answer) -> bool {
        match answer {
            Answer::Name(name) => name == "rtf-extractor"@,
            Answer::Version(version) => version == VERSION@,
            Answer::Description(description) => description == "Extracts content from RTF (Rich Text Format) files with native Rust parsing"@,
            Answer::Author(author) => author == "Kreuzberg Team"@,
            Answer::MimeTypes(types) => types == seq!["application/rtf"@, "text/rtf"@],
            Answer::Priority(priority) => priority == 50,
            Answer::SetUp(outcome) => outcome is Ok,
            Answer::TornDown(outcome) => outcome is Ok,
        }
    }

    fn name(&self) -> (r: &str)
        ensures
            r@ == "rtf-extractor"@,
    {
        "rtf-extractor"
    }

    fn version(&self) -> (r: String)
        ensures
            r@ == VERSION@,
    {
        String::from_str(VERSION)
    }

    fn initialize(&self) -> (r: Result<(), KreuzbergError>)
        ensures
            r is Ok,
    {
        Ok(())
    }

    fn shutdown(&self) -> (r: Result<(), KreuzbergError>)
        ensures
            r is Ok,
    {
        Ok(())
    }

    fn description(&self) -> (r: &str)
        ensures
            r@ == "Extracts content from RTF (Rich Text Format) files with native Rust parsing"@,
    {
        "Extracts content from RTF (Rich Text Format) files with native Rust parsing"
    }

    fn author(&self) -> (r: &str)
        ensures
            r@ == "Kreuzberg Team"@,
    {
        "Kreuzberg Team"
    }

    open spec fn extracts(
        &self,
        content: Seq<u8>,
        mime_type: Seq<char>,
        config: Seq<(Seq<char>, Seq<char>)>,
        outcome: Result<ExtractionResultView, ErrorView>,
    ) -> bool {
        outcome == Ok::<ExtractionResultView, ErrorView>(
            text_result(rtf_text(utf8_lossy(content)), mime_type, empty_metadata(), Seq::empty()),
        )
    }

    fn extract_bytes(&self, content: &[u8], mime_type: &str, config: &ExtractionConfig) -> (r:
        Result<ExtractionResult, KreuzbergError>) {
        let source = decode_utf8_lossy(content);
        let text = extract_text_from_rtf(source.as_str());
        let tables = Vec::new();
        assert(crate::types::tables_view(tables@) =~= Seq::empty());
        Ok(ExtractionResult::of_text(text, mime_type, Metadata::new(), tables))
    }

    fn supported_mime_types(&self) -> (r: Vec<&'static str>)
        ensures
            r.deep_view() == seq!["application/rtf"@, "text/rtf"@],
    {
        let r = vec!["application/rtf", "text/rtf"];
        assert(r.deep_view() =~~= seq!["application/rtf"@, "text/rtf"@]);
        r
    }

    fn priority(&self) -> (r: i32)
        ensures
            r == 50,
    {
        50
    }
}

} // verus!
