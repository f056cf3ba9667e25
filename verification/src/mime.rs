//! MIME types: their normal form, the file extensions that stand for them,
//! and what the first bytes of a document tell.

use vstd::prelude::*;
use crate::error::{ErrorView, KreuzbergError};
use crate::scan::{find_char, lemma_find_char, scan_to};
use crate::text::{
    chars_of, lemma_trim_end, lemma_trim_start, lemma_trimmed_chars, lemma_trimmed_edges,
    lemma_trimmed_is_trimmed, slice_of, str_eq, string_of, trim, trimmed,
};
use crate::unicode::{ascii_lowercase, is_ascii, is_ascii_text, lowercase, white_space};

verus! {

/// A MIME type without its parameters: cut off at the first semicolon and
/// trimmed, or as it stands where it has no semicolon.
pub open spec fn without_parameters(mime: Seq<char>) -> Seq<char> {
    let cut = find_char(mime, 0, ';');
    if cut < mime.len() {
        trimmed(mime.subrange(0, cut))
    } else {
        mime
    }
}

/// The normal form of a MIME type: trimmed, in lower case, and without its
/// parameters.
pub open spec fn normalized(s: Seq<char>) -> Seq<char> {
    without_parameters(lowercase(trimmed(s)))
}

/// Whether a character stands for itself in a normal form: a small ASCII
/// letter, a digit, or one of `/`, `+`, `-` and `.`.
pub open spec fn is_plain_char(c: char) -> bool {
    ('a' <= c && c <= 'z') || ('0' <= c && c <= '9') || c == '/' || c == '+' || c == '-' || c
        == '.'
}

/// A MIME type of plain characters is its own normal form.
pub proof fn lemma_plain_is_normal(s: Seq<char>)
    requires
        forall|i: int| 0 <= i < s.len() ==> is_plain_char(#[trigger] s[i]),
    ensures
        normalized(s) == s,
{
    if s.len() > 0 {
        assert(is_plain_char(s[0]));
        assert(is_plain_char(s[s.len() - 1]));
    }
    lemma_trim_start(s, 0);
    lemma_trim_end(s, s.len() as int);
    assert(trimmed(s) =~= s);
    assert(is_ascii_text(s)) by {
        assert forall|i: int| 0 <= i < s.len() implies is_ascii(#[trigger] s[i]) by {
            assert(is_plain_char(s[i]));
        }
    }
    assert(lowercase(s) =~= s) by {
        assert forall|i: int| 0 <= i < s.len() implies ascii_lowercase(
            #[trigger] s[i],
        ) == s[i] by {
            assert(is_plain_char(s[i]));
        }
    }
    lemma_find_char(s, 0, ';');
    if find_char(s, 0, ';') < s.len() {
        assert(is_plain_char(s[find_char(s, 0, ';')]));
    }
}

/// The normal form of an ASCII text is its own normal form.
pub proof fn lemma_normalize_idempotent(s: Seq<char>)
    requires
        is_ascii_text(s),
    ensures
        normalized(normalized(s)) == normalized(s),
{
    let t = trimmed(s);
    assert forall|i: int| 0 <= i < t.len() implies is_ascii(#[trigger] t[i]) by {
        lemma_trimmed_chars(s, i);
    }
    let l = lowercase(t);
    assert(l.len() == t.len());
    assert forall|i: int| 0 <= i < l.len() implies is_ascii(#[trigger] l[i]) && ascii_lowercase(
        l[i],
    ) == l[i] && white_space(l[i]) == white_space(t[i]) && l[i] == ascii_lowercase(t[i]) by {
        assert(is_ascii(t[i]));
    }
    lemma_trimmed_edges(s);
    lemma_trim_start(l, 0);
    lemma_trim_end(l, l.len() as int);
    assert(trimmed(l) =~= l);
    assert(is_ascii_text(l));
    assert(lowercase(l) =~= l);
    let cut = find_char(l, 0, ';');
    lemma_find_char(l, 0, ';');
    if cut < l.len() {
        let h = l.subrange(0, cut);
        let w = trimmed(h);
        lemma_trimmed_is_trimmed(h);
        assert forall|i: int| 0 <= i < w.len() implies is_ascii(#[trigger] w[i]) && ascii_lowercase(
            w[i],
        ) == w[i] && w[i] != ';' by {
            lemma_trimmed_chars(h, i);
            let k = crate::text::trim_start(h) + i;
            assert(h[k] == l[k]);
            assert(is_ascii(l[k]));
        }
        assert(is_ascii_text(w));
        assert(lowercase(w) =~= w);
        lemma_find_char(w, 0, ';');
        assert(normalized(w) == w);
    } else {
        assert(normalized(l) == l);
    }
}

/// Cuts the parameters off a MIME type.
pub fn strip_parameters(mime: &str) -> (r: String)
    ensures
        r@ == without_parameters(mime@),
{
    let chars = chars_of(mime);
    let cut = scan_to(&chars, 0, ';');
    if cut < chars.len() {
        string_of(&trim(&slice_of(&chars, 0, cut)))
    } else {
        string_of(&chars)
    }
}

/// Brings a MIME type into its normal form.
pub fn normalize_mime_type(mime_type: String) -> (r: String)
    ensures
        r@ == normalized(mime_type@),
{
    let chars = chars_of(mime_type.as_str());
    let lower = string_of(&trim(&chars)).as_str().to_lowercase();
    strip_parameters(lower.as_str())
}

/// The table of file extensions and the MIME type of each.
pub open spec fn mime_table() -> Seq<(Seq<char>, Seq<char>)> {
    seq![
        ("txt"@, "text/plain"@),
        ("md"@, "text/markdown"@),
        ("markdown"@, "text/markdown"@),
        ("pdf"@, "application/pdf"@),
        ("html"@, "text/html"@),
        ("htm"@, "text/html"@),
        ("xlsx"@, "application/vnd.openxmlformats-officedocument.spreadsheetml.sheet"@),
        ("xls"@, "application/vnd.ms-excel"@),
        ("xlsm"@, "application/vnd.ms-excel.sheet.macroEnabled.12"@),
        ("xlsb"@, "application/vnd.ms-excel.sheet.binary.macroEnabled.12"@),
        ("xlam"@, "application/vnd.ms-excel.addin.macroEnabled.12"@),
        ("xla"@, "application/vnd.ms-excel.template.macroEnabled.12"@),
        ("ods"@, "application/vnd.oasis.opendocument.spreadsheet"@),
        ("pptx"@, "application/vnd.openxmlformats-officedocument.presentationml.presentation"@),
        ("ppt"@, "application/vnd.ms-powerpoint"@),
        ("docx"@, "application/vnd.openxmlformats-officedocument.wordprocessingml.document"@),
        ("doc"@, "application/msword"@),
        ("odt"@, "application/vnd.oasis.opendocument.text"@),
        ("bmp"@, "image/bmp"@),
        ("gif"@, "image/gif"@),
        ("jpg"@, "image/jpeg"@),
        ("jpeg"@, "image/jpeg"@),
        ("png"@, "image/png"@),
        ("tiff"@, "image/tiff"@),
        ("tif"@, "image/tiff"@),
        ("webp"@, "image/webp"@),
        ("jp2"@, "image/jp2"@),
        ("jpx"@, "image/jpx"@),
        ("jpm"@, "image/jpm"@),
        ("mj2"@, "image/mj2"@),
        ("pnm"@, "image/x-portable-anymap"@),
        ("pbm"@, "image/x-portable-bitmap"@),
        ("pgm"@, "image/x-portable-graymap"@),
        ("ppm"@, "image/x-portable-pixmap"@),
        ("csv"@, "text/csv"@),
        ("tsv"@, "text/tab-separated-values"@),
        ("json"@, "application/json"@),
        ("yaml"@, "application/x-yaml"@),
        ("yml"@, "application/x-yaml"@),
        ("toml"@, "application/toml"@),
        ("xml"@, "application/xml"@),
        ("svg"@, "image/svg+xml"@),
        ("eml"@, "message/rfc822"@),
        ("msg"@, "application/vnd.ms-outlook"@),
        ("zip"@, "application/zip"@),
        ("tar"@, "application/x-tar"@),
        ("gz"@, "application/gzip"@),
        ("tgz"@, "application/x-tar"@),
        ("7z"@, "application/x-7z-compressed"@),
        ("rst"@, "text/x-rst"@),
        ("org"@, "text/x-org"@),
        ("epub"@, "application/epub+zip"@),
        ("rtf"@, "application/rtf"@),
        ("bib"@, "application/x-bibtex"@),
        ("ipynb"@, "application/x-ipynb+json"@),
        ("tex"@, "application/x-latex"@),
        ("latex"@, "application/x-latex"@),
        ("typst"@, "application/x-typst"@),
        ("commonmark"@, "text/x-commonmark"@),
    ]
}

/// The MIME type of the first of the first `n` rows that has the extension.
pub open spec fn table_lookup(table: Seq<(Seq<char>, Seq<char>)>, ext: Seq<char>, n: nat) -> Option<
    Seq<char>,
>
    decreases n,
{
    if n == 0 {
        None
    } else {
        match table_lookup(table, ext, (n - 1) as nat) {
            Some(m) => Some(m),
            None => if table[n - 1].0 == ext {
                Some(table[n - 1].1)
            } else {
                None
            },
        }
    }
}

/// The MIME type that the table gives for an extension, written as the
/// table has it: in lower case and without a dot.
pub open spec fn table_mime(ext: Seq<char>) -> Option<Seq<char>> {
    table_lookup(mime_table(), ext, mime_table().len())
}

/// The extension as the table knows it: without one leading dot, in lower case.
pub open spec fn plain_extension(ext: Seq<char>) -> Seq<char> {
    if ext.len() > 0 && ext[0] == '.' {
        lowercase(ext.drop_first())
    } else {
        lowercase(ext)
    }
}

/// The MIME type that a file extension stands for.
pub open spec fn extension_mime(ext: Seq<char>) -> Option<Seq<char>> {
    table_mime(plain_extension(ext))
}

/// The extensions among the first `n` rows that stand for a MIME type, in
/// the order of the table.
pub open spec fn table_extensions(table: Seq<(Seq<char>, Seq<char>)>, mime: Seq<char>, n: nat) -> Seq<
    Seq<char>,
>
    decreases n,
{
    if n == 0 {
        Seq::empty()
    } else if table[n - 1].1 == mime {
        table_extensions(table, mime, (n - 1) as nat).push(table[n - 1].0)
    } else {
        table_extensions(table, mime, (n - 1) as nat)
    }
}

/// The extensions that stand for a MIME type.
pub open spec fn mime_extensions(mime: Seq<char>) -> Seq<Seq<char>> {
    table_extensions(mime_table(), mime, mime_table().len())
}

/// An extension stands for the same MIME type with and without its dot.
pub proof fn lemma_leading_dot_is_ignored(ext: Seq<char>)
    requires
        ext.len() == 0 || ext[0] != '.',
    ensures
        extension_mime(seq!['.'] + ext) == extension_mime(ext),
{
    assert((seq!['.'] + ext).drop_first() =~= ext);
}

/// The rows of the table as plain values.
pub open spec fn rows_view(rows: Seq<(&'static str, &'static str)>) -> Seq<(Seq<char>, Seq<char>)> {
    Seq::new(rows.len(), |i: int| (rows[i].0@, rows[i].1@))
}

fn table_rows() -> (rows: Vec<(&'static str, &'static str)>)
    ensures
        rows_view(rows@) == mime_table(),
{
    let rows = vec![
        ("txt", "text/plain"),
        ("md", "text/markdown"),
        ("markdown", "text/markdown"),
        ("pdf", "application/pdf"),
        ("html", "text/html"),
        ("htm", "text/html"),
        ("xlsx", "application/vnd.openxmlformats-officedocument.spreadsheetml.sheet"),
        ("xls", "application/vnd.ms-excel"),
        ("xlsm", "application/vnd.ms-excel.sheet.macroEnabled.12"),
        ("xlsb", "application/vnd.ms-excel.sheet.binary.macroEnabled.12"),
        ("xlam", "application/vnd.ms-excel.addin.macroEnabled.12"),
        ("xla", "application/vnd.ms-excel.template.macroEnabled.12"),
        ("ods", "application/vnd.oasis.opendocument.spreadsheet"),
        ("pptx", "application/vnd.openxmlformats-officedocument.presentationml.presentation"),
        ("ppt", "application/vnd.ms-powerpoint"),
        ("docx", "application/vnd.openxmlformats-officedocument.wordprocessingml.document"),
        ("doc", "application/msword"),
        ("odt", "application/vnd.oasis.opendocument.text"),
        ("bmp", "image/bmp"),
        ("gif", "image/gif"),
        ("jpg", "image/jpeg"),
        ("jpeg", "image/jpeg"),
        ("png", "image/png"),
        ("tiff", "image/tiff"),
        ("tif", "image/tiff"),
        ("webp", "image/webp"),
        ("jp2", "image/jp2"),
        ("jpx", "image/jpx"),
        ("jpm", "image/jpm"),
        ("mj2", "image/mj2"),
        ("pnm", "image/x-portable-anymap"),
        ("pbm", "image/x-portable-bitmap"),
        ("pgm", "image/x-portable-graymap"),
        ("ppm", "image/x-portable-pixmap"),
        ("csv", "text/csv"),
        ("tsv", "text/tab-separated-values"),
        ("json", "application/json"),
        ("yaml", "application/x-yaml"),
        ("yml", "application/x-yaml"),
        ("toml", "application/toml"),
        ("xml", "application/xml"),
        ("svg", "image/svg+xml"),
        ("eml", "message/rfc822"),
        ("msg", "application/vnd.ms-outlook"),
        ("zip", "application/zip"),
        ("tar", "application/x-tar"),
        ("gz", "application/gzip"),
        ("tgz", "application/x-tar"),
        ("7z", "application/x-7z-compressed"),
        ("rst", "text/x-rst"),
        ("org", "text/x-org"),
        ("epub", "application/epub+zip"),
        ("rtf", "application/rtf"),
        ("bib", "application/x-bibtex"),
        ("ipynb", "application/x-ipynb+json"),
        ("tex", "application/x-latex"),
        ("latex", "application/x-latex"),
        ("typst", "application/x-typst"),
        ("commonmark", "text/x-commonmark"),
    ];
    assert(rows_view(rows@) =~= mime_table());
    rows
}

/// Looks up the MIME type of an extension as the table has it.
pub fn lookup_extension(ext: &str) -> (r: Option<String>)
    ensures
        match r {
            Some(m) => table_mime(ext@) == Some(m@),
            None => table_mime(ext@) is None,
        },
{
    let rows = table_rows();
    let mut i: usize = 0;
    while i < rows.len()
        invariant
            i <= rows.len(),
            rows_view(rows@) == mime_table(),
            table_lookup(mime_table(), ext@, i as nat) is None,
        decreases rows.len() - i,
    {
        assert(rows_view(rows@)[i as int] == (rows@[i as int].0@, rows@[i as int].1@));
        if str_eq(rows[i].0, ext) {
            proof {
                lemma_lookup_found(mime_table(), ext@, i as int);
            }
            return Some(String::from_str(rows[i].1));
        }
        i += 1;
    }
    assert(rows@.len() == mime_table().len());
    None
}

/// Looks up the MIME type of a file extension, given with or without its
/// dot and in any case.
pub fn get_mime_from_extension(extension: String) -> (r: Option<String>)
    ensures
        match r {
            Some(m) => extension_mime(extension@) == Some(m@),
            None => extension_mime(extension@) is None,
        },
{
    let chars = chars_of(extension.as_str());
    let bare = if chars.len() > 0 && chars[0] == '.' {
        assert(chars@.subrange(1, chars.len() as int) =~= chars@.drop_first());
        string_of(&slice_of(&chars, 1, chars.len()))
    } else {
        string_of(&chars)
    };
    let ext = bare.as_str().to_lowercase();
    lookup_extension(ext.as_str())
}

/// A row that has the extension, with none before it that has, gives the
/// result of the lookup.
pub proof fn lemma_lookup_found(table: Seq<(Seq<char>, Seq<char>)>, ext: Seq<char>, i: int)
    requires
        0 <= i < table.len(),
        table[i].0 == ext,
        table_lookup(table, ext, i as nat) is None,
    ensures
        table_lookup(table, ext, table.len()) == Some(table[i].1),
{
    lemma_lookup_stays(table, ext, i + 1, table.len() as int);
}

/// What was found among the first rows stays the result.
pub proof fn lemma_lookup_stays(table: Seq<(Seq<char>, Seq<char>)>, ext: Seq<char>, n: int, m: int)
    requires
        0 <= n <= m <= table.len(),
        table_lookup(table, ext, n as nat) is Some,
    ensures
        table_lookup(table, ext, m as nat) == table_lookup(table, ext, n as nat),
    decreases m - n,
{
    if n < m {
        lemma_lookup_stays(table, ext, n, m - 1);
    }
}

/// Lists the file extensions that stand for a MIME type, in the order of
/// the table. A MIME type that no extension stands for is not supported.
pub fn get_extensions_for_mime(mime_type: &str) -> (r: Result<Vec<String>, KreuzbergError>)
    ensures
        match r {
            Ok(exts) => mime_extensions(mime_type@).len() > 0 && exts.deep_view()
                == mime_extensions(mime_type@),
            Err(e) => mime_extensions(mime_type@).len() == 0 && e@
                == ErrorView::UnsupportedFormat(mime_type@),
        },
{
    let rows = table_rows();
    let mut exts: Vec<String> = Vec::new();
    let mut i: usize = 0;
    assert(exts.deep_view() =~~= Seq::<Seq<char>>::empty());
    while i < rows.len()
        invariant
            i <= rows.len(),
            rows_view(rows@) == mime_table(),
            exts.deep_view() == table_extensions(mime_table(), mime_type@, i as nat),
        decreases rows.len() - i,
    {
        assert(rows_view(rows@)[i as int] == (rows@[i as int].0@, rows@[i as int].1@));
        if str_eq(rows[i].1, mime_type) {
            let ghost held = exts.deep_view();
            exts.push(String::from_str(rows[i].0));
            assert(exts.deep_view() =~~= held.push(rows@[i as int].0@));
        }
        i += 1;
    }
    assert(rows@.len() == mime_table().len());
    if exts.len() > 0 {
        Ok(exts)
    } else {
        Err(KreuzbergError::UnsupportedFormat(String::from_str(mime_type)))
    }
}

/// Every extension listed for a MIME type stands for it, among the first
/// `n` rows of a table.
pub proof fn lemma_listed_extension(
    table: Seq<(Seq<char>, Seq<char>)>,
    mime: Seq<char>,
    n: nat,
    k: int,
)
    requires
        n <= table.len(),
        0 <= k < table_extensions(table, mime, n).len(),
    ensures
        exists|i: int|
            0 <= i < n && (#[trigger] table[i]).1 == mime && table[i].0 == table_extensions(
                table,
                mime,
                n,
            )[k],
    decreases n,
{
    if n > 0 {
        let before = table_extensions(table, mime, (n - 1) as nat);
        if table[n - 1].1 == mime && k == before.len() {
            assert(table[n - 1].0 == table_extensions(table, mime, n)[k]);
        } else {
            lemma_listed_extension(table, mime, (n - 1) as nat, k);
        }
    }
}

/// Whether the bytes of a signature stand in the data at an offset.
pub open spec fn has_bytes(data: Seq<u8>, at: int, sig: Seq<u8>) -> bool {
    at + sig.len() <= data.len() && data.subrange(at, at + sig.len()) == sig
}

/// The MIME type that the signature at the start of the data stands for:
/// PDF, PNG, JPEG, GIF, TIFF, WebP, ZIP, gzip, 7-Zip, RTF and BMP are known.
pub open spec fn signature_mime(data: Seq<u8>) -> Option<Seq<char>> {
    if has_bytes(data, 0, seq![0x25u8, 0x50, 0x44, 0x46]) {
        Some("application/pdf"@)
    } else if has_bytes(data, 0, seq![0x89u8, 0x50, 0x4E, 0x47]) {
        Some("image/png"@)
    } else if has_bytes(data, 0, seq![0xFFu8, 0xD8, 0xFF]) {
        Some("image/jpeg"@)
    } else if has_bytes(data, 0, seq![0x47u8, 0x49, 0x46, 0x38]) {
        Some("image/gif"@)
    } else if has_bytes(data, 0, seq![0x49u8, 0x49, 0x2A, 0x00]) {
        Some("image/tiff"@)
    } else if has_bytes(data, 0, seq![0x4Du8, 0x4D, 0x00, 0x2A]) {
        Some("image/tiff"@)
    } else if has_bytes(data, 0, seq![0x52u8, 0x49, 0x46, 0x46]) && has_bytes(
        data,
        8,
        seq![0x57u8, 0x45, 0x42, 0x50],
    ) {
        Some("image/webp"@)
    } else if has_bytes(data, 0, seq![0x50u8, 0x4B, 0x03, 0x04]) {
        Some("application/zip"@)
    } else if has_bytes(data, 0, seq![0x1Fu8, 0x8B]) {
        Some("application/gzip"@)
    } else if has_bytes(data, 0, seq![0x37u8, 0x7A, 0xBC, 0xAF]) {
        Some("application/x-7z-compressed"@)
    } else if has_bytes(data, 0, seq![0x7Bu8, 0x5C, 0x72, 0x74, 0x66]) {
        Some("application/rtf"@)
    } else if has_bytes(data, 0, seq![0x42u8, 0x4D]) {
        Some("image/bmp"@)
    } else {
        None
    }
}

/// Whether a byte can stand in a text: a tab, a line break, or no control
/// character.
pub open spec fn is_text_byte(b: u8) -> bool {
    b == 9 || b == 10 || b == 13 || (32 <= b && b != 127)
}

/// Whether the data can be a text: it is not empty and holds text bytes only.
pub open spec fn plausibly_text(data: Seq<u8>) -> bool {
    data.len() > 0 && forall|i: int| 0 <= i < data.len() ==> is_text_byte(#[trigger] data[i])
}

/// The MIME type that the data tells: that of its signature, or plain text
/// where it has no known signature and can be a text.
pub open spec fn detected_mime(data: Seq<u8>) -> Option<Seq<char>> {
    match signature_mime(data) {
        Some(m) => Some(m),
        None => if plausibly_text(data) {
            Some("text/plain"@)
        } else {
            None
        },
    }
}

fn bytes_at(data: &[u8], at: usize, sig: &Vec<u8>) -> (b: bool)
    requires
        at <= 16,
        sig.len() <= 16,
    ensures
        b == has_bytes(data@, at as int, sig@),
{
    if at + sig.len() > data.len() {
        return false;
    }
    let mut k: usize = 0;
    while k < sig.len()
        invariant
            k <= sig.len(),
            at + sig.len() <= data.len(),
            data@.subrange(at as int, at + k) == sig@.take(k as int),
        decreases sig.len() - k,
    {
        if data[at + k] != sig[k] {
            assert(data@.subrange(at as int, at + sig.len())[k as int] != sig@[k as int]);
            return false;
        }
        assert(data@.subrange(at as int, at + k + 1) == data@.subrange(at as int, at + k).push(
            data@[at + k],
        ));
        assert(sig@.take(k + 1) == sig@.take(k as int).push(sig@[k as int]));
        k += 1;
    }
    assert(sig@.take(sig.len() as int) == sig@);
    true
}

fn signature_of(data: &[u8]) -> (r: Option<&'static str>)
    ensures
        match r {
            Some(m) => signature_mime(data@) == Some(m@),
            None => signature_mime(data@) is None,
        },
{
    if bytes_at(data, 0, &vec![0x25u8, 0x50, 0x44, 0x46]) {
        Some("application/pdf")
    } else if bytes_at(data, 0, &vec![0x89u8, 0x50, 0x4E, 0x47]) {
        Some("image/png")
    } else if bytes_at(data, 0, &vec![0xFFu8, 0xD8, 0xFF]) {
        Some("image/jpeg")
    } else if bytes_at(data, 0, &vec![0x47u8, 0x49, 0x46, 0x38]) {
        Some("image/gif")
    } else if bytes_at(data, 0, &vec![0x49u8, 0x49, 0x2A, 0x00]) {
        Some("image/tiff")
    } else if bytes_at(data, 0, &vec![0x4Du8, 0x4D, 0x00, 0x2A]) {
        Some("image/tiff")
    } else if bytes_at(data, 0, &vec![0x52u8, 0x49, 0x46, 0x46]) && bytes_at(
        data,
        8,
        &vec![0x57u8, 0x45, 0x42, 0x50],
    ) {
        Some("image/webp")
    } else if bytes_at(data, 0, &vec![0x50u8, 0x4B, 0x03, 0x04]) {
        Some("application/zip")
    } else if bytes_at(data, 0, &vec![0x1Fu8, 0x8B]) {
        Some("application/gzip")
    } else if bytes_at(data, 0, &vec![0x37u8, 0x7A, 0xBC, 0xAF]) {
        Some("application/x-7z-compressed")
    } else if bytes_at(data, 0, &vec![0x7Bu8, 0x5C, 0x72, 0x74, 0x66]) {
        Some("application/rtf")
    } else if bytes_at(data, 0, &vec![0x42u8, 0x4D]) {
        Some("image/bmp")
    } else {
        None
    }
}

fn is_text(data: &[u8]) -> (b: bool)
    ensures
        b == plausibly_text(data@),
{
    if data.len() == 0 {
        return false;
    }
    let mut i: usize = 0;
    while i < data.len()
        invariant
            i <= data.len(),
            forall|k: int| 0 <= k < i ==> is_text_byte(#[trigger] data@[k]),
        decreases data.len() - i,
    {
        let b = data[i];
        if !(b == 9 || b == 10 || b == 13 || (32 <= b && b != 127)) {
            return false;
        }
        i += 1;
    }
    true
}

/// Detects the MIME type of a document from its bytes: by its signature
/// first, then by whether it can be a text. Data that tells neither is a
/// parsing error.
pub fn detect_mime_from_bytes(data: &[u8]) -> (r: Result<String, KreuzbergError>)
    ensures
        match r {
            Ok(m) => detected_mime(data@) == Some(m@),
            Err(e) => detected_mime(data@) is None && e@ == (ErrorView::Parsing {
                message: "Could not determine MIME type from bytes"@,
                source: None,
            }),
        },
{
    match signature_of(data) {
        Some(m) => Ok(String::from_str(m)),
        None => {
            if is_text(data) {
                Ok(String::from_str("text/plain"))
            } else {
                Err(
                    KreuzbergError::Parsing {
                        message: String::from_str("Could not determine MIME type from bytes"),
                        source: None,
                    },
                )
            }
        },
    }
}

} // verus!
