//! An EPUB document as plain values: the texts of its chapters and its
//! metadata, as they were read from the archive.

use vstd::prelude::*;
use crate::epub::xhtml::{text_from_xhtml, xhtml_text};
use crate::text::{chars_of, push_chars, str_eq, string_of, trim, trimmed};
use crate::types::{opt_text, MetadataMap, MetadataValue, MetadataValueView};

verus! {

/// What was read from an EPUB archive.
#[derive(Debug)]
pub struct EpubBook {
    /// The chapters in the order of the spine: the XHTML source of each, or
    /// nothing where it could not be read as text.
    pub chapters: Vec<Option<String>>,
    /// The metadata items in the order of the package document: the
    /// property of each and its value.
    pub metadata: Vec<(String, String)>,
    /// The release identifier, where the package has one.
    pub release_identifier: Option<String>,
    /// The identifier of the cover image, where the package names one.
    pub cover_id: Option<String>,
}

/// The mathematical form of an EPUB document.
pub struct EpubBookView {
    pub chapters: Seq<Option<Seq<char>>>,
    pub metadata: Seq<(Seq<char>, Seq<char>)>,
    pub release_identifier: Option<Seq<char>>,
    pub cover_id: Option<Seq<char>>,
}

impl View for EpubBook {
    type V = EpubBookView;

    open spec fn view(&self) -> EpubBookView {
        EpubBookView {
            chapters: Seq::new(self.chapters@.len(), |i: int| opt_text(self.chapters@[i])),
            metadata: Seq::new(
                self.metadata@.len(),
                |i: int| (self.metadata@[i].0@, self.metadata@[i].1@),
            ),
            release_identifier: opt_text(self.release_identifier),
            cover_id: opt_text(self.cover_id),
        }
    }
}

/// The text of the first `n` chapters: the text of each chapter that has
/// any, followed by a newline.
pub open spec fn chapters_text(chapters: Seq<Option<Seq<char>>>, n: nat) -> Seq<char>
    decreases n,
{
    if n == 0 {
        Seq::empty()
    } else {
        let head = chapters_text(chapters, (n - 1) as nat);
        match chapters[n - 1] {
            Some(source) => if xhtml_text(source).len() > 0 {
                head + xhtml_text(source) + "\n"@
            } else {
                head
            },
            None => head,
        }
    }
}

/// The text of a document: the texts of its chapters, trimmed.
pub open spec fn book_text(chapters: Seq<Option<Seq<char>>>) -> Seq<char> {
    trimmed(chapters_text(chapters, chapters.len()))
}

/// The value of the first of the first `n` items that has the given property.
pub open spec fn first_value(
    items: Seq<(Seq<char>, Seq<char>)>,
    property: Seq<char>,
    n: nat,
) -> Option<Seq<char>>
    decreases n,
{
    if n == 0 {
        None
    } else {
        match first_value(items, property, (n - 1) as nat) {
            Some(v) => Some(v),
            None => if items[n - 1].0 == property {
                Some(items[n - 1].1)
            } else {
                None
            },
        }
    }
}

/// The value of the first item that has the given property.
pub open spec fn property_value(book: EpubBookView, property: Seq<char>) -> Option<Seq<char>> {
    first_value(book.metadata, property, book.metadata.len())
}

/// The map with the value of a property stored as a text under a key, where
/// the document has the property.
pub open spec fn with_property(
    m: Map<Seq<char>, MetadataValueView>,
    book: EpubBookView,
    property: Seq<char>,
) -> Map<Seq<char>, MetadataValueView> {
    match property_value(book, property) {
        Some(v) => m.insert(property, MetadataValueView::Text(v)),
        None => m,
    }
}

/// The map with the creator of the document stored under `creator`, and
/// as the one author under `authors`.
pub open spec fn with_creator(m: Map<Seq<char>, MetadataValueView>, book: EpubBookView) -> Map<
    Seq<char>,
    MetadataValueView,
> {
    match property_value(book, "creator"@) {
        Some(v) => m.insert("creator"@, MetadataValueView::Text(v)).insert(
            "authors"@,
            MetadataValueView::List(seq![v]),
        ),
        None => m,
    }
}

/// The map with an optional text stored under a key.
pub open spec fn with_text(
    m: Map<Seq<char>, MetadataValueView>,
    key: Seq<char>,
    value: Option<Seq<char>>,
) -> Map<Seq<char>, MetadataValueView> {
    match value {
        Some(v) => m.insert(key, MetadataValueView::Text(v)),
        None => m,
    }
}

/// The metadata of a document: the Dublin Core properties that it has,
/// each under its name, and its release identifier.
pub open spec fn book_metadata(book: EpubBookView) -> Map<Seq<char>, MetadataValueView> {
    let m1 = with_property(Map::empty(), book, "title"@);
    let m2 = with_creator(m1, book);
    let m3 = with_property(m2, book, "date"@);
    let m4 = with_property(m3, book, "language"@);
    let m5 = with_property(m4, book, "identifier"@);
    let m6 = with_property(m5, book, "publisher"@);
    let m7 = with_property(m6, book, "subject"@);
    let m8 = with_property(m7, book, "description"@);
    let m9 = with_property(m8, book, "rights"@);
    with_text(m9, "release_identifier"@, book.release_identifier)
}

impl EpubBook {
    /// The value of the first metadata item that has the given property.
    pub fn mdata(&self, property: &str) -> (r: Option<String>)
        ensures
            opt_text(r) == property_value(self@, property@),
    {
        let mut i: usize = 0;
        while i < self.metadata.len()
            invariant
                i <= self.metadata.len(),
                first_value(self@.metadata, property@, i as nat) is None,
            decreases self.metadata.len() - i,
        {
            assert(self@.metadata[i as int] == (self.metadata@[i as int].0@, self.metadata@[i as int].1@));
            if str_eq(self.metadata[i].0.as_str(), property) {
                proof {
                    lemma_first_value_found(self@.metadata, property@, i as int);
                }
                return Some(self.metadata[i].1.clone());
            }
            i += 1;
        }
        None
    }
}

/// An item that has the property, with none before it that has, is the
/// first that has it.
pub proof fn lemma_first_value_found(
    items: Seq<(Seq<char>, Seq<char>)>,
    property: Seq<char>,
    i: int,
)
    requires
        0 <= i < items.len(),
        items[i].0 == property,
        first_value(items, property, i as nat) is None,
    ensures
        first_value(items, property, items.len()) == Some(items[i].1),
{
    lemma_first_value_stays(items, property, i + 1, items.len() as int);
}

/// A value that was found among the first items stays the first.
pub proof fn lemma_first_value_stays(
    items: Seq<(Seq<char>, Seq<char>)>,
    property: Seq<char>,
    n: int,
    m: int,
)
    requires
        0 <= n <= m <= items.len(),
        first_value(items, property, n as nat) is Some,
    ensures
        first_value(items, property, m as nat) == first_value(items, property, n as nat),
    decreases m - n,
{
    if n < m {
        lemma_first_value_stays(items, property, n, m - 1);
    }
}

/// The text of the chapters of a document.
pub fn read_chapters(book: &EpubBook) -> (r: String)
    ensures
        r@ == book_text(book@.chapters),
{
    let mut content: Vec<char> = Vec::new();
    let mut i: usize = 0;
    while i < book.chapters.len()
        invariant
            i <= book.chapters.len(),
            content@ == chapters_text(book@.chapters, i as nat),
        decreases book.chapters.len() - i,
    {
        assert(book@.chapters[i as int] == opt_text(book.chapters@[i as int]));
        match &book.chapters[i] {
            Some(source) => {
                let text = text_from_xhtml(source.as_str());
                let chars = chars_of(text.as_str());
                if chars.len() > 0 {
                    push_chars(&mut content, &chars);
                    content.push('\n');
                    proof {
                        reveal_strlit("\n");
                        assert("\n"@ =~= seq!['\n']);
                        assert(content@ == chapters_text(book@.chapters, i as nat) + xhtml_text(
                            source@,
                        ) + "\n"@);
                    }
                }
            },
            None => {},
        }
        i += 1;
    }
    string_of(&trim(&content))
}

fn store_property(m: &mut MetadataMap, book: &EpubBook, property: &str)
    ensures
        final(m)@ == with_property(old(m)@, book@, property@),
{
    match book.mdata(property) {
        Some(v) => {
            m.insert(String::from_str(property), MetadataValue::Text(v));
        },
        None => {},
    }
}

/// The metadata of a document.
pub fn read_metadata(book: &EpubBook) -> (m: MetadataMap)
    ensures
        m@ == book_metadata(book@),
{
    let mut m = MetadataMap::new();
    store_property(&mut m, book, "title");
    match book.mdata("creator") {
        Some(v) => {
            let mut authors: Vec<String> = Vec::new();
            authors.push(v.clone());
            assert(authors.deep_view() =~~= seq![v@]);
            m.insert(String::from_str("creator"), MetadataValue::Text(v));
            m.insert(String::from_str("authors"), MetadataValue::List(authors));
        },
        None => {},
    }
    store_property(&mut m, book, "date");
    store_property(&mut m, book, "language");
    store_property(&mut m, book, "identifier");
    store_property(&mut m, book, "publisher");
    store_property(&mut m, book, "subject");
    store_property(&mut m, book, "description");
    store_property(&mut m, book, "rights");
    match &book.release_identifier {
        Some(v) => {
            m.insert(String::from_str("release_identifier"), MetadataValue::Text(v.clone()));
        },
        None => {},
    }
    m
}

} // verus!
