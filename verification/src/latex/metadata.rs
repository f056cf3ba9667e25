//! Metadata of a document: what its title, author, date and class commands hold.

use vstd::prelude::*;
use crate::latex::matcher::{captures, escape_pattern, escaped, regex_captures};
use crate::text::{chars_of, split, split_on, string_of, trim, trimmed};
use crate::types::{opt_text, Metadata, MetadataValue, MetadataValueView, MetadataView};

verus! {

/// The pattern for a command with one argument in braces; its first group is
/// the argument.
pub open spec fn content_pattern(command: Seq<char>) -> Seq<char> {
    "\\\\"@ + escaped(command) + "\\{([^}]*)\\}"@
}

/// The pattern for a command with an optional argument in brackets and one
/// in braces; its first group is the optional argument, its second the other.
pub open spec fn args_pattern(command: Seq<char>) -> Seq<char> {
    "\\\\"@ + escaped(command) + "(?:\\[([^\\]]*)\\])?\\{([^}]*)\\}"@
}

/// The text of a group of a match, if the match has that group and it took part.
pub open spec fn group(m: Seq<Option<Seq<char>>>, i: int) -> Option<Seq<char>> {
    if 0 <= i < m.len() {
        m[i]
    } else {
        None
    }
}

/// The argument that the last match of a content pattern holds: the text of
/// its first group, or the empty text where that group took no part.
pub open spec fn content_of(caps: Option<Seq<Seq<Option<Seq<char>>>>>) -> Option<Seq<char>> {
    match caps {
        Some(ms) => if ms.len() > 0 {
            match group(ms.last(), 1) {
                Some(t) => Some(t),
                None => Some(Seq::empty()),
            }
        } else {
            None
        },
        None => None,
    }
}

/// The argument that the last match of an arguments pattern holds: the
/// argument in braces, whatever stands in brackets before it.
pub open spec fn args_of(caps: Option<Seq<Seq<Option<Seq<char>>>>>) -> Option<Seq<char>> {
    match caps {
        Some(ms) => if ms.len() > 0 {
            group(ms.last(), 2)
        } else {
            None
        },
        None => None,
    }
}

/// The argument of the last occurrence of a command in a document.
pub open spec fn command_content(s: Seq<char>, command: Seq<char>) -> Option<Seq<char>> {
    content_of(regex_captures(content_pattern(command), s))
}

/// The argument in braces of the last occurrence of a command that may
/// have an optional argument in brackets before it.
pub open spec fn command_args(s: Seq<char>, command: Seq<char>) -> Option<Seq<char>> {
    args_of(regex_captures(args_pattern(command), s))
}

/// The names in an author text: its parts between ` \and `, each trimmed.
pub open spec fn authors_of(text: Seq<char>) -> Seq<Seq<char>> {
    split_on(text, " \\and "@, 0).map_values(|p: Seq<char>| trimmed(p))
}

/// The metadata after a document was read into it: the title, the first
/// author and the list of authors, and the document class are stored under
/// their names; the date is set where the document gives one.
pub open spec fn with_document(prev: MetadataView, s: Seq<char>) -> MetadataView {
    let m1 = match command_content(s, "title"@) {
        Some(t) => prev.additional.insert("title"@, MetadataValueView::Text(t)),
        None => prev.additional,
    };
    let m2 = match command_content(s, "author"@) {
        Some(a) => m1.insert("author"@, MetadataValueView::Text(authors_of(a)[0])).insert(
            "authors"@,
            MetadataValueView::List(authors_of(a)),
        ),
        None => m1,
    };
    let m3 = match command_args(s, "documentclass"@) {
        Some(c) => m2.insert("documentclass"@, MetadataValueView::Text(c)),
        None => m2,
    };
    MetadataView {
        date: match command_content(s, "date"@) {
            Some(d) => Some(d),
            None => prev.date,
        },
        additional: m3,
    }
}

fn group_text(m: &Vec<Option<String>>, i: usize) -> (r: Option<String>)
    ensures
        opt_text(r) == group(m.deep_view(), i as int),
{
    if i < m.len() {
        match &m[i] {
            Some(t) => Some(t.clone()),
            None => None,
        }
    } else {
        None
    }
}

/// The argument held by the matches of a content pattern.
pub fn pick_content(caps: &Option<Vec<Vec<Option<String>>>>) -> (r: Option<String>)
    ensures
        opt_text(r) == content_of(caps.deep_view()),
{
    match caps {
        Some(ms) => {
            if ms.len() > 0 {
                assert(ms.deep_view().last() == ms@[ms.len() - 1].deep_view());
                match group_text(&ms[ms.len() - 1], 1) {
                    Some(t) => Some(t),
                    None => Some(String::new()),
                }
            } else {
                None
            }
        },
        None => None,
    }
}

/// The argument held by the matches of an arguments pattern.
pub fn pick_args(caps: &Option<Vec<Vec<Option<String>>>>) -> (r: Option<String>)
    ensures
        opt_text(r) == args_of(caps.deep_view()),
{
    match caps {
        Some(ms) => {
            if ms.len() > 0 {
                assert(ms.deep_view().last() == ms@[ms.len() - 1].deep_view());
                group_text(&ms[ms.len() - 1], 2)
            } else {
                None
            }
        },
        None => None,
    }
}

fn build_pattern(command: &str, tail: &str) -> (r: String)
    ensures
        r@ == "\\\\"@ + escaped(command@) + tail@,
{
    let mut p = String::from_str("\\\\");
    let e = escape_pattern(command);
    p.append(e.as_str());
    p.append(tail);
    p
}

/// Finds the argument of the last occurrence of a command in a document.
pub fn find_command_content(content: &str, command: &str) -> (r: Option<String>)
    ensures
        opt_text(r) == command_content(content@, command@),
{
    let pattern = build_pattern(command, "\\{([^}]*)\\}");
    let caps = captures(pattern.as_str(), content);
    pick_content(&caps)
}

/// Finds the argument in braces of the last occurrence of a command that
/// may have an optional argument in brackets before it.
pub fn find_command_args(content: &str, command: &str) -> (r: Option<String>)
    ensures
        opt_text(r) == command_args(content@, command@),
{
    let pattern = build_pattern(command, "(?:\\[([^\\]]*)\\])?\\{([^}]*)\\}");
    let caps = captures(pattern.as_str(), content);
    pick_args(&caps)
}

/// The names in an author text.
pub fn author_names(text: &str) -> (names: Vec<String>)
    ensures
        names.deep_view() == authors_of(text@),
        names.len() >= 1,
{
    let chars = chars_of(text);
    let parts = split(&chars, " \\and ");
    let mut names: Vec<String> = Vec::new();
    let mut i: usize = 0;
    proof {
        crate::text::lemma_split_nonempty(chars@, " \\and "@, 0);
    }
    while i < parts.len()
        invariant
            i <= parts.len(),
            names@.len() == i,
            forall|k: int| 0 <= k < i ==> (#[trigger] names@[k])@ == trimmed(parts@[k]@),
        decreases parts.len() - i,
    {
        let t = trim(&parts[i]);
        names.push(string_of(&t));
        i += 1;
    }
    assert forall|k: int| 0 <= k < parts@.len() implies #[trigger] parts.deep_view()[k]
        == parts@[k]@ by {
        assert(parts@[k].deep_view() =~= parts@[k]@);
    }
    assert(names.deep_view() =~~= parts.deep_view().map_values(|p: Seq<char>| trimmed(p)));
    names
}

/// Reads the metadata commands of a document into `metadata`.
pub fn read_metadata(content: &str, metadata: &mut Metadata)
    ensures
        final(metadata)@ == with_document(old(metadata)@, content@),
{
    match find_command_content(content, "title") {
        Some(title) => {
            metadata.additional.insert(String::from_str("title"), MetadataValue::Text(title));
        },
        None => {},
    }
    match find_command_content(content, "author") {
        Some(author) => {
            let names = author_names(author.as_str());
            let first = names[0].clone();
            assert(names.deep_view()[0] == names@[0]@);
            metadata.additional.insert(String::from_str("author"), MetadataValue::Text(first));
            metadata.additional.insert(String::from_str("authors"), MetadataValue::List(names));
        },
        None => {},
    }
    match find_command_content(content, "date") {
        Some(date) => {
            metadata.date = Some(date);
        },
        None => {},
    }
    match find_command_args(content, "documentclass") {
        Some(class) => {
            metadata.additional.insert(
                String::from_str("documentclass"),
                MetadataValue::Text(class),
            );
        },
        None => {},
    }
}

} // verus!
