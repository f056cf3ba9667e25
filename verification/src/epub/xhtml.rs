//! The text of an XHTML document: what stands outside its tags.

use vstd::prelude::*;
use crate::scan::{find_char, lemma_find_char, past, scan_to, step_past};
use crate::text::{
    chars_eq, chars_of, contains, contains_sub, push_chars, push_str, slice_of, string_of, trim,
    trimmed,
};
use crate::unicode::lowercase;

verus! {

/// Where the reading of an XHTML document stands: the text so far, whether
/// a tag is open, whether a script or style element hides what is read, and
/// the characters of the tag read last.
pub struct XhtmlState {
    pub text: Seq<char>,
    pub in_tag: bool,
    pub hidden: bool,
    pub tag: Seq<char>,
}

/// Whether a tag belongs to a script or a style element.
pub open spec fn is_hiding_tag(tag: Seq<char>) -> bool {
    contains_sub(lowercase(tag), "script"@) || contains_sub(lowercase(tag), "style"@)
}

/// Whether what follows a tag is hidden: a script or style tag hides unless
/// it is a closing tag, any other tag changes nothing.
pub open spec fn hidden_after(tag: Seq<char>, hidden: bool) -> bool {
    if is_hiding_tag(tag) {
        !(tag.len() > 0 && tag[0] == '/')
    } else {
        hidden
    }
}

/// What an entity stands for: one of six characters, or itself where it is
/// none of the known entities.
pub open spec fn entity_text(entity: Seq<char>) -> Seq<char> {
    if entity == "&nbsp;"@ {
        " "@
    } else if entity == "&lt;"@ {
        "<"@
    } else if entity == "&gt;"@ {
        ">"@
    } else if entity == "&amp;"@ {
        "&"@
    } else if entity == "&quot;"@ {
        "\""@
    } else if entity == "&apos;"@ {
        "'"@
    } else {
        entity
    }
}

/// The text with a character of the document added: a newline or a tab
/// gives a space unless the text is empty or ends in one, a space gives a
/// space unless the text ends in one, any other character is added.
pub open spec fn with_char(text: Seq<char>, c: char) -> Seq<char> {
    if c == '\n' || c == '\r' || c == '\t' {
        if text.len() > 0 && text.last() != ' ' {
            text.push(' ')
        } else {
            text
        }
    } else if c == ' ' {
        if text.len() > 0 && text.last() == ' ' {
            text
        } else {
            text.push(' ')
        }
    } else {
        text.push(c)
    }
}

/// The position behind the step at `pos`: behind the semicolon of an entity
/// that is read as text, else behind the character.
pub open spec fn xhtml_next(s: Seq<char>, pos: int, st: XhtmlState) -> int {
    if s[pos] != '<' && s[pos] != '>' && !st.in_tag && !st.hidden && s[pos] == '&' {
        past(s, find_char(s, pos + 1, ';'))
    } else {
        pos + 1
    }
}

/// The state behind the step at `pos`. `<` opens a tag and `>` closes it;
/// inside a tag the characters are those of the tag; outside, unless hidden,
/// an ampersand starts an entity that ends with the next semicolon, and any
/// other character is text.
pub open spec fn xhtml_step(s: Seq<char>, pos: int, st: XhtmlState) -> XhtmlState {
    let c = s[pos];
    if c == '<' {
        XhtmlState { in_tag: true, tag: Seq::empty(), ..st }
    } else if c == '>' {
        XhtmlState { in_tag: false, hidden: hidden_after(st.tag, st.hidden), ..st }
    } else if st.in_tag {
        XhtmlState { tag: st.tag.push(c), ..st }
    } else if st.hidden {
        st
    } else if c == '&' {
        XhtmlState {
            text: st.text + entity_text(s.subrange(pos, xhtml_next(s, pos, st))),
            ..st
        }
    } else {
        XhtmlState { text: with_char(st.text, c), ..st }
    }
}

/// The state at the end of the document, read from `pos` on.
pub open spec fn xhtml_run(s: Seq<char>, pos: int, st: XhtmlState) -> XhtmlState
    decreases s.len() - pos,
{
    if pos < 0 || pos >= s.len() {
        st
    } else {
        proof {
            lemma_find_char(s, pos + 1, ';');
        }
        xhtml_run(s, xhtml_next(s, pos, st), xhtml_step(s, pos, st))
    }
}

/// The text with every run of spaces cut down to one: a space that follows
/// a space is dropped.
pub open spec fn collapse_spaces(s: Seq<char>) -> Seq<char>
    decreases s.len(),
{
    if s.len() == 0 {
        Seq::empty()
    } else if s.last() == ' ' && s.len() >= 2 && s[s.len() - 2] == ' ' {
        collapse_spaces(s.drop_last())
    } else {
        collapse_spaces(s.drop_last()).push(s.last())
    }
}

/// The state in which the reading starts.
pub open spec fn xhtml_start() -> XhtmlState {
    XhtmlState { text: Seq::empty(), in_tag: false, hidden: false, tag: Seq::empty() }
}

/// The plain text of an XHTML document.
pub open spec fn xhtml_text(s: Seq<char>) -> Seq<char> {
    trimmed(collapse_spaces(xhtml_run(s, 0, xhtml_start()).text))
}

/// Re-running the extraction on the same document gives the same text.
pub proof fn lemma_xhtml_deterministic(a: Seq<char>, b: Seq<char>)
    requires
        a == b,
    ensures
        xhtml_text(a) == xhtml_text(b),
{
}

fn hides(tag: &Vec<char>) -> (b: bool)
    ensures
        b == is_hiding_tag(tag@),
{
    let lower = string_of(tag).as_str().to_lowercase();
    let chars = chars_of(lower.as_str());
    contains(&chars, "script") || contains(&chars, "style")
}

fn push_entity(out: &mut Vec<char>, entity: &Vec<char>)
    ensures
        final(out)@ == old(out)@ + entity_text(entity@),
{
    if chars_eq(entity, "&nbsp;") {
        push_str(out, " ");
    } else if chars_eq(entity, "&lt;") {
        push_str(out, "<");
    } else if chars_eq(entity, "&gt;") {
        push_str(out, ">");
    } else if chars_eq(entity, "&amp;") {
        push_str(out, "&");
    } else if chars_eq(entity, "&quot;") {
        push_str(out, "\"");
    } else if chars_eq(entity, "&apos;") {
        push_str(out, "'");
    } else {
        push_chars(out, entity);
    }
}

fn push_text_char(out: &mut Vec<char>, c: char)
    ensures
        final(out)@ == with_char(old(out)@, c),
{
    if c == '\n' || c == '\r' || c == '\t' {
        if out.len() > 0 && out[out.len() - 1] != ' ' {
            out.push(' ');
        }
    } else if c == ' ' {
        if !(out.len() > 0 && out[out.len() - 1] == ' ') {
            out.push(' ');
        }
    } else {
        out.push(c);
    }
}

/// Cuts every run of spaces down to one.
pub fn collapse(text: &Vec<char>) -> (r: Vec<char>)
    ensures
        r@ == collapse_spaces(text@),
{
    let mut r: Vec<char> = Vec::new();
    let mut i: usize = 0;
    assert(text@.take(0) =~= Seq::<char>::empty());
    while i < text.len()
        invariant
            i <= text.len(),
            r@ == collapse_spaces(text@.take(i as int)),
        decreases text.len() - i,
    {
        let c = text[i];
        proof {
            let cur = text@.take(i + 1);
            assert(cur.drop_last() == text@.take(i as int));
            assert(cur.last() == c);
            if i >= 1 {
                assert(cur[cur.len() - 2] == text@[i - 1]);
            }
        }
        if !(c == ' ' && i >= 1 && text[i - 1] == ' ') {
            r.push(c);
        }
        i += 1;
    }
    assert(text@.take(text.len() as int) == text@);
    r
}

/// Extracts the plain text of an XHTML document.
pub fn text_from_xhtml(html: &str) -> (r: String)
    ensures
        r@ == xhtml_text(html@),
{
    let chars = chars_of(html);
    let mut text: Vec<char> = Vec::new();
    let mut in_tag = false;
    let mut hidden = false;
    let mut tag: Vec<char> = Vec::new();
    let mut i: usize = 0;
    while i < chars.len()
        invariant
            i <= chars.len(),
            xhtml_run(
                chars@,
                i as int,
                XhtmlState { text: text@, in_tag, hidden, tag: tag@ },
            ) == xhtml_run(chars@, 0, xhtml_start()),
        decreases chars.len() - i,
    {
        let c = chars[i];
        proof {
            lemma_find_char(chars@, i + 1, ';');
        }
        if c == '<' {
            in_tag = true;
            tag = Vec::new();
            i += 1;
        } else if c == '>' {
            in_tag = false;
            if hides(&tag) {
                hidden = !(tag.len() > 0 && tag[0] == '/');
            }
            i += 1;
        } else if in_tag {
            tag.push(c);
            i += 1;
        } else if hidden {
            i += 1;
        } else if c == '&' {
            let close = scan_to(&chars, i + 1, ';');
            let next = step_past(&chars, close);
            let entity = slice_of(&chars, i, next);
            push_entity(&mut text, &entity);
            i = next;
        } else {
            push_text_char(&mut text, c);
            i += 1;
        }
    }
    let cleaned = collapse(&text);
    string_of(&trim(&cleaned))
}

} // verus!
