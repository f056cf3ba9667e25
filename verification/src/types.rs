//! The values an extraction produces: text, metadata and tables.

use vstd::prelude::*;
use crate::text::{push_chars, push_str, str_eq, string_of};

verus! {

/// A metadata value: a single text or a list of texts.
#[derive(Debug)]
pub enum MetadataValue {
    Text(String),
    List(Vec<String>),
}

/// The mathematical form of a metadata value.
pub enum MetadataValueView {
    Text(Seq<char>),
    List(Seq<Seq<char>>),
}

impl View for MetadataValue {
    type V = MetadataValueView;

    open spec fn view(&self) -> MetadataValueView {
        match self {
            MetadataValue::Text(s) => MetadataValueView::Text(s@),
            MetadataValue::List(l) => MetadataValueView::List(l.deep_view()),
        }
    }
}

impl MetadataValue {
    /// The text of a single-text value.
    pub fn as_str(&self) -> (r: Option<&str>)
        ensures
            match self@ {
                MetadataValueView::Text(s) => r is Some && r->0@ == s,
                MetadataValueView::List(_) => r is None,
            },
    {
        match self {
            MetadataValue::Text(s) => Some(s.as_str()),
            MetadataValue::List(_) => None,
        }
    }

    /// The items of a list value.
    pub fn as_list(&self) -> (r: Option<&Vec<String>>)
        ensures
            match self@ {
                MetadataValueView::Text(_) => r is None,
                MetadataValueView::List(l) => r is Some && r->0.deep_view() == l,
            },
    {
        match self {
            MetadataValue::Text(_) => None,
            MetadataValue::List(l) => Some(l),
        }
    }
}

/// The map that a sequence of entries stands for: a later entry replaces an
/// earlier one of the same key.
pub open spec fn entries_map(es: Seq<(String, MetadataValue)>) -> Map<Seq<char>, MetadataValueView>
    decreases es.len(),
{
    if es.len() == 0 {
        Map::empty()
    } else {
        entries_map(es.drop_last()).insert(es.last().0@, es.last().1@)
    }
}

/// No two entries share a key.
pub open spec fn distinct_keys(es: Seq<(String, MetadataValue)>) -> bool {
    forall|i: int, j: int| 0 <= i < j < es.len() ==> (#[trigger] es[i]).0@ != (#[trigger] es[j]).0@
}

proof fn lemma_absent(es: Seq<(String, MetadataValue)>, key: Seq<char>)
    requires
        forall|i: int| 0 <= i < es.len() ==> (#[trigger] es[i]).0@ != key,
    ensures
        !entries_map(es).contains_key(key),
    decreases es.len(),
{
    if es.len() > 0 {
        let dl = es.drop_last();
        assert forall|i: int| 0 <= i < dl.len() implies (#[trigger] dl[i]).0@ != key by {
            assert(dl[i] == es[i]);
        }
        lemma_absent(dl, key);
        assert(es.last() == es[es.len() - 1]);
    }
}

proof fn lemma_present(es: Seq<(String, MetadataValue)>, i: int)
    requires
        distinct_keys(es),
        0 <= i < es.len(),
    ensures
        entries_map(es).contains_key(es[i].0@),
        entries_map(es)[es[i].0@] == es[i].1@,
    decreases es.len(),
{
    if i < es.len() - 1 {
        let dl = es.drop_last();
        assert(dl[i] == es[i]);
        assert(distinct_keys(dl)) by {
            assert forall|a: int, b: int| 0 <= a < b < dl.len() implies (#[trigger] dl[a]).0@ != (
            #[trigger] dl[b]).0@ by {
                assert(dl[a] == es[a] && dl[b] == es[b]);
            }
        }
        lemma_present(dl, i);
        assert(es.last() == es[es.len() - 1]);
    }
}

proof fn lemma_replace(es: Seq<(String, MetadataValue)>, i: int, e: (String, MetadataValue))
    requires
        distinct_keys(es),
        0 <= i < es.len(),
        es[i].0@ == e.0@,
    ensures
        entries_map(es.update(i, e)) == entries_map(es).insert(e.0@, e.1@),
        distinct_keys(es.update(i, e)),
    decreases es.len(),
{
    let up = es.update(i, e);
    assert(distinct_keys(up)) by {
        assert forall|a: int, b: int| 0 <= a < b < up.len() implies (#[trigger] up[a]).0@ != (
        #[trigger] up[b]).0@ by {
            assert(es[a].0@ != es[b].0@);
        }
    }
    let dl = es.drop_last();
    if i == es.len() - 1 {
        assert(up.drop_last() == dl);
        assert(entries_map(up) == entries_map(es).insert(e.0@, e.1@));
    } else {
        assert(up.drop_last() == dl.update(i, e));
        assert(dl[i] == es[i]);
        assert(distinct_keys(dl)) by {
            assert forall|a: int, b: int| 0 <= a < b < dl.len() implies (#[trigger] dl[a]).0@ != (
            #[trigger] dl[b]).0@ by {
                assert(dl[a] == es[a] && dl[b] == es[b]);
            }
        }
        lemma_replace(dl, i, e);
        assert(es[i].0@ != es[es.len() - 1].0@);
        assert(up.last() == es.last());
        assert(entries_map(up) == entries_map(es).insert(e.0@, e.1@));
    }
}

/// A bag of named metadata values. Keys are unique; the order of insertion
/// carries no meaning.
#[derive(Debug)]
pub struct MetadataMap {
    entries: Vec<(String, MetadataValue)>,
}

impl View for MetadataMap {
    type V = Map<Seq<char>, MetadataValueView>;

    closed spec fn view(&self) -> Map<Seq<char>, MetadataValueView> {
        entries_map(self.entries@)
    }
}

impl MetadataMap {
    #[verifier::type_invariant]
    spec fn unique_keys(&self) -> bool {
        distinct_keys(self.entries@)
    }

    /// The number of entries held.
    pub closed spec fn spec_len(&self) -> nat {
        self.entries@.len()
    }

    /// An empty bag.
    pub fn new() -> (m: MetadataMap)
        ensures
            m@ == Map::<Seq<char>, MetadataValueView>::empty(),
            m.spec_len() == 0,
    {
        MetadataMap { entries: Vec::new() }
    }

    /// The number of keys held.
    pub fn len(&self) -> (n: usize)
        ensures
            n == self.spec_len(),
    {
        self.entries.len()
    }

    /// Whether nothing is held.
    pub fn is_empty(&self) -> (b: bool)
        ensures
            b == (self.spec_len() == 0),
    {
        self.entries.len() == 0
    }

    fn position(entries: &Vec<(String, MetadataValue)>, key: &str) -> (r: Option<usize>)
        ensures
            match r {
                Some(i) => i < entries@.len() && entries@[i as int].0@ == key@,
                None => forall|i: int| 0 <= i < entries@.len() ==> (#[trigger] entries@[i]).0@ != key@,
            },
    {
        let mut i: usize = 0;
        while i < entries.len()
            invariant
                i <= entries@.len(),
                forall|k: int| 0 <= k < i ==> (#[trigger] entries@[k]).0@ != key@,
            decreases entries@.len() - i,
        {
            if str_eq(entries[i].0.as_str(), key) {
                return Some(i);
            }
            i += 1;
        }
        None
    }

    /// The value stored under a key.
    pub fn get(&self, key: &str) -> (r: Option<&MetadataValue>)
        ensures
            self@.contains_key(key@) ==> r is Some && r->0@ == self@[key@],
            !self@.contains_key(key@) ==> r is None,
    {
        proof {
            use_type_invariant(self);
        }
        match Self::position(&self.entries, key) {
            Some(i) => {
                proof {
                    lemma_present(self.entries@, i as int);
                }
                Some(&self.entries[i].1)
            },
            None => {
                proof {
                    lemma_absent(self.entries@, key@);
                }
                None
            },
        }
    }

    /// Whether a value is stored under a key.
    pub fn contains_key(&self, key: &str) -> (b: bool)
        ensures
            b == self@.contains_key(key@),
    {
        self.get(key).is_some()
    }

    /// The keys held, each once.
    pub fn keys(&self) -> (r: Vec<String>)
        ensures
            r@.len() == self.spec_len(),
            forall|i: int| 0 <= i < r@.len() ==> self@.contains_key(#[trigger] r@[i]@),
            forall|i: int, j: int| 0 <= i < j < r@.len() ==> (#[trigger] r@[i])@ != (#[trigger] r@[j])@,
    {
        proof {
            use_type_invariant(self);
        }
        let mut r: Vec<String> = Vec::new();
        let mut i: usize = 0;
        while i < self.entries.len()
            invariant
                i <= self.entries@.len(),
                r@.len() == i,
                distinct_keys(self.entries@),
                forall|k: int| 0 <= k < i ==> (#[trigger] r@[k])@ == self.entries@[k].0@,
            decreases self.entries@.len() - i,
        {
            r.push(self.entries[i].0.clone());
            i += 1;
        }
        proof {
            assert forall|k: int| 0 <= k < r@.len() implies self@.contains_key(#[trigger] r@[k]@) by {
                lemma_present(self.entries@, k);
            }
            assert forall|a: int, b: int| 0 <= a < b < r@.len() implies (#[trigger] r@[a])@ != (
            #[trigger] r@[b])@ by {
                assert(self.entries@[a].0@ != self.entries@[b].0@);
            }
        }
        r
    }

    /// Stores a value under a key, in place of the value that was there.
    pub fn insert(&mut self, key: String, value: MetadataValue)
        ensures
            final(self)@ == old(self)@.insert(key@, value@),
    {
        proof {
            use_type_invariant(&*self);
        }
        let mut entries: Vec<(String, MetadataValue)> = Vec::new();
        std::mem::swap(&mut self.entries, &mut entries);
        match Self::position(&entries, key.as_str()) {
            Some(i) => {
                proof {
                    lemma_replace(entries@, i as int, (key, value));
                }
                entries.set(i, (key, value));
            },
            None => {
                let ghost before = entries@;
                entries.push((key, value));
                proof {
                    assert(entries@.drop_last() == before);
                    assert forall|a: int, b: int| 0 <= a < b < entries@.len() implies (
                    #[trigger] entries@[a]).0@ != (#[trigger] entries@[b]).0@ by {
                        if b < before.len() {
                            assert(before[a].0@ != before[b].0@);
                        } else {
                            assert(entries@[a] == before[a]);
                        }
                    }
                }
            },
        }
        std::mem::swap(&mut self.entries, &mut entries);
    }
}

/// Metadata of a document: its date and a bag of further named values.
#[derive(Debug)]
pub struct Metadata {
    pub date: Option<String>,
    pub additional: MetadataMap,
}

/// The mathematical form of a document's metadata.
pub struct MetadataView {
    pub date: Option<Seq<char>>,
    pub additional: Map<Seq<char>, MetadataValueView>,
}

/// The text of an optional string.
pub open spec fn opt_text(o: Option<String>) -> Option<Seq<char>> {
    match o {
        Some(s) => Some(s@),
        None => None,
    }
}

impl View for Metadata {
    type V = MetadataView;

    open spec fn view(&self) -> MetadataView {
        MetadataView { date: opt_text(self.date), additional: self.additional@ }
    }
}

impl Metadata {
    /// Metadata that holds nothing.
    pub fn new() -> (m: Metadata)
        ensures
            m@ == empty_metadata(),
    {
        Metadata { date: None, additional: MetadataMap::new() }
    }
}

/// The first `n` cells of a row, each rendered as a space, the cell and ` |`.
pub open spec fn cells_markdown(row: Seq<Seq<char>>, n: nat) -> Seq<char>
    decreases n,
{
    if n == 0 {
        Seq::empty()
    } else {
        cells_markdown(row, (n - 1) as nat) + " "@ + row[n - 1] + " |"@
    }
}

/// One rendered row: a bar, the cells, a newline.
pub open spec fn row_markdown(row: Seq<Seq<char>>) -> Seq<char> {
    "|"@ + cells_markdown(row, row.len()) + "\n"@
}

/// `n` column rules.
pub open spec fn rule_markdown(n: nat) -> Seq<char>
    decreases n,
{
    if n == 0 {
        Seq::empty()
    } else {
        rule_markdown((n - 1) as nat) + "---|"@
    }
}

/// The separator row that follows a header row of `n` columns.
pub open spec fn separator_markdown(n: nat) -> Seq<char> {
    "|"@ + rule_markdown(n) + "\n"@
}

/// The first `n` rows rendered; a separator row follows the first row where
/// the table has more than one row.
pub open spec fn rows_markdown(cells: Seq<Seq<Seq<char>>>, n: nat) -> Seq<char>
    decreases n,
{
    if n == 0 {
        Seq::empty()
    } else {
        let before = rows_markdown(cells, (n - 1) as nat) + row_markdown(cells[n - 1]);
        if n == 1 && cells.len() > 1 {
            before + separator_markdown(cells[0].len())
        } else {
            before
        }
    }
}

/// The markdown rendering of a cell matrix.
pub open spec fn table_markdown(cells: Seq<Seq<Seq<char>>>) -> Seq<char> {
    rows_markdown(cells, cells.len())
}

/// A table: its cells row by row, and their markdown rendering.
#[derive(Debug)]
pub struct Table {
    pub cells: Vec<Vec<String>>,
    pub markdown: String,
    pub page_number: usize,
}

/// The mathematical form of a table.
pub struct TableView {
    pub cells: Seq<Seq<Seq<char>>>,
    pub markdown: Seq<char>,
    pub page_number: nat,
}

impl View for Table {
    type V = TableView;

    open spec fn view(&self) -> TableView {
        TableView {
            cells: self.cells.deep_view(),
            markdown: self.markdown@,
            page_number: self.page_number as nat,
        }
    }
}

/// A table is well formed when its markdown is the rendering of its cells.
pub open spec fn table_wf(t: TableView) -> bool {
    t.markdown == table_markdown(t.cells)
}

/// The views of a sequence of tables.
pub open spec fn tables_view(ts: Seq<Table>) -> Seq<TableView> {
    Seq::new(ts.len(), |i: int| ts[i]@)
}

fn render_row(row: &Vec<Vec<char>>) -> (r: Vec<char>)
    ensures
        r@ == row_markdown(row.deep_view()),
{
    let mut r: Vec<char> = Vec::new();
    push_str(&mut r, "|");
    let ghost head = r@;
    let mut j: usize = 0;
    while j < row.len()
        invariant
            j <= row.len(),
            head == "|"@,
            r@ == head + cells_markdown(row.deep_view(), j as nat),
        decreases row.len() - j,
    {
        let ghost before = r@;
        push_str(&mut r, " ");
        push_chars(&mut r, &row[j]);
        push_str(&mut r, " |");
        proof {
            assert(row.deep_view()[j as int] == row@[j as int]@);
            assert(r@ == head + (cells_markdown(row.deep_view(), j as nat) + " "@ + row@[j as int]@
                + " |"@));
        }
        j += 1;
    }
    push_str(&mut r, "\n");
    r
}

fn render_separator(n: usize) -> (r: Vec<char>)
    ensures
        r@ == separator_markdown(n as nat),
{
    let mut r: Vec<char> = Vec::new();
    push_str(&mut r, "|");
    let ghost head = r@;
    let mut j: usize = 0;
    while j < n
        invariant
            j <= n,
            head == "|"@,
            r@ == head + rule_markdown(j as nat),
        decreases n - j,
    {
        push_str(&mut r, "---|");
        proof {
            assert(r@ == head + (rule_markdown(j as nat) + "---|"@));
        }
        j += 1;
    }
    push_str(&mut r, "\n");
    r
}

/// Renders a cell matrix as markdown.
pub fn render_markdown(cells: &Vec<Vec<Vec<char>>>) -> (r: Vec<char>)
    ensures
        r@ == table_markdown(cells.deep_view()),
{
    let mut r: Vec<char> = Vec::new();
    let mut i: usize = 0;
    while i < cells.len()
        invariant
            i <= cells.len(),
            r@ == rows_markdown(cells.deep_view(), i as nat),
        decreases cells.len() - i,
    {
        let line = render_row(&cells[i]);
        proof {
            assert(cells.deep_view()[i as int] == cells@[i as int].deep_view());
            assert(cells.deep_view()[0].len() == cells@[0].len());
        }
        push_chars(&mut r, &line);
        if i == 0 && cells.len() > 1 {
            let sep = render_separator(cells[0].len());
            push_chars(&mut r, &sep);
        }
        i += 1;
    }
    r
}

fn string_row(row: &Vec<Vec<char>>) -> (r: Vec<String>)
    ensures
        r.deep_view() == row.deep_view(),
{
    let mut r: Vec<String> = Vec::new();
    let mut j: usize = 0;
    while j < row.len()
        invariant
            j <= row.len(),
            r@.len() == j,
            forall|k: int| 0 <= k < j ==> (#[trigger] r@[k])@ == row@[k]@,
        decreases row.len() - j,
    {
        r.push(string_of(&row[j]));
        j += 1;
    }
    assert(r.deep_view() =~~= row.deep_view());
    r
}

impl Table {
    /// The table of a cell matrix on a page, with its rendering.
    pub fn from_cells(cells: &Vec<Vec<Vec<char>>>, page_number: usize) -> (t: Table)
        ensures
            t@.cells == cells.deep_view(),
            t@.markdown == table_markdown(cells.deep_view()),
            t@.page_number == page_number,
            table_wf(t@),
    {
        let markdown = render_markdown(cells);
        let mut rows: Vec<Vec<String>> = Vec::new();
        let mut i: usize = 0;
        while i < cells.len()
            invariant
                i <= cells.len(),
                rows@.len() == i,
                forall|k: int| 0 <= k < i ==> (#[trigger] rows@[k]).deep_view() == cells@[k].deep_view(),
            decreases cells.len() - i,
        {
            rows.push(string_row(&cells[i]));
            i += 1;
        }
        assert(rows.deep_view() =~~= cells.deep_view());
        Table { cells: rows, markdown: string_of(&markdown), page_number }
    }
}

/// The texts of an optional list of strings.
pub open spec fn opt_texts(o: Option<Vec<String>>) -> Option<Seq<Seq<char>>> {
    match o {
        Some(l) => Some(l.deep_view()),
        None => None,
    }
}

/// The outcome of an extraction, owned by the caller.
#[derive(Debug)]
pub struct ExtractionResult {
    pub content: String,
    pub mime_type: String,
    pub metadata: Metadata,
    pub tables: Vec<Table>,
    pub detected_languages: Option<Vec<String>>,
    pub chunks: Option<Vec<String>>,
    pub images: Option<Vec<String>>,
}

/// The mathematical form of the outcome of an extraction.
pub struct ExtractionResultView {
    pub content: Seq<char>,
    pub mime_type: Seq<char>,
    pub metadata: MetadataView,
    pub tables: Seq<TableView>,
    pub detected_languages: Option<Seq<Seq<char>>>,
    pub chunks: Option<Seq<Seq<char>>>,
    pub images: Option<Seq<Seq<char>>>,
}

impl View for ExtractionResult {
    type V = ExtractionResultView;

    open spec fn view(&self) -> ExtractionResultView {
        ExtractionResultView {
            content: self.content@,
            mime_type: self.mime_type@,
            metadata: self.metadata@,
            tables: tables_view(self.tables@),
            detected_languages: opt_texts(self.detected_languages),
            chunks: opt_texts(self.chunks),
            images: opt_texts(self.images),
        }
    }
}

/// The outcome that holds a text, metadata and tables and nothing more.
pub open spec fn text_result(
    content: Seq<char>,
    mime_type: Seq<char>,
    metadata: MetadataView,
    tables: Seq<TableView>,
) -> ExtractionResultView {
    ExtractionResultView {
        content,
        mime_type,
        metadata,
        tables,
        detected_languages: None,
        chunks: None,
        images: None,
    }
}

/// Metadata that holds nothing.
pub open spec fn empty_metadata() -> MetadataView {
    MetadataView { date: None, additional: Map::empty() }
}

impl ExtractionResult {
    /// The outcome that holds a text, metadata and tables and nothing more.
    pub fn of_text(content: String, mime_type: &str, metadata: Metadata, tables: Vec<Table>) -> (r:
        ExtractionResult)
        ensures
            r@ == text_result(content@, mime_type@, metadata@, tables_view(tables@)),
    {
        ExtractionResult {
            content,
            mime_type: String::from_str(mime_type),
            metadata,
            tables,
            detected_languages: None,
            chunks: None,
            images: None,
        }
    }
}

/// How an extraction is to be done. The library hands it through to the
/// extractors and reads nothing in it.
#[derive(Debug)]
pub struct ExtractionConfig {
    pub options: Vec<(String, String)>,
}

impl View for ExtractionConfig {
    type V = Seq<(Seq<char>, Seq<char>)>;

    open spec fn view(&self) -> Seq<(Seq<char>, Seq<char>)> {
        Seq::new(self.options@.len(), |i: int| (self.options@[i].0@, self.options@[i].1@))
    }
}

impl ExtractionConfig {
    /// A configuration without options.
    pub fn new() -> (c: ExtractionConfig)
        ensures
            c.options@.len() == 0,
            c@.len() == 0,
    {
        ExtractionConfig { options: Vec::new() }
    }
}

} // verus!
