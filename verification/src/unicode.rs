//! Character classification and conversions taken from the standard library.
//!
//! Everything in this module is a trusted statement about `std`. Its
//! documentation defines these functions by the properties of the Unicode
//! Character Database. What that database fixes in a few lines is stated
//! here: the whole of `White_Space`, and the ASCII part of the other
//! properties. The tables beyond ASCII are not restated, their results are
//! given names that the rest of the crate reasons over.

use vstd::prelude::*;

verus! {

/// Whether a character is one of the 128 ASCII characters.
pub open spec fn is_ascii(c: char) -> bool {
    (c as u32) < 128
}

/// Whether every character of a text is an ASCII character.
pub open spec fn is_ascii_text(s: Seq<char>) -> bool {
    forall|i: int| 0 <= i < s.len() ==> is_ascii(#[trigger] s[i])
}

/// Whether a character beyond ASCII has the Unicode `Alphabetic` property.
pub uninterp spec fn alphabetic_beyond_ascii(c: char) -> bool;

/// Whether a character beyond ASCII is in one of the Unicode number categories.
pub uninterp spec fn numeric_beyond_ascii(c: char) -> bool;

/// The lowercase form of a text that holds a character beyond ASCII, as the
/// Unicode `Lowercase` mapping gives it.
pub uninterp spec fn lowercase_beyond_ascii(s: Seq<char>) -> Seq<char>;

/// The text that lossy UTF-8 decoding gives for a byte sequence.
pub uninterp spec fn utf8_lossy(bytes: Seq<u8>) -> Seq<char>;

/// Whether a character has the Unicode `Alphabetic` property: among the
/// ASCII characters, the letters.
pub open spec fn alphabetic(c: char) -> bool {
    if is_ascii(c) {
        ('a' <= c && c <= 'z') || ('A' <= c && c <= 'Z')
    } else {
        alphabetic_beyond_ascii(c)
    }
}

/// Whether a character is in one of the Unicode number categories: among
/// the ASCII characters, the digits.
pub open spec fn numeric(c: char) -> bool {
    if is_ascii(c) {
        '0' <= c && c <= '9'
    } else {
        numeric_beyond_ascii(c)
    }
}

/// Whether a character has the Unicode `White_Space` property.
pub open spec fn white_space(c: char) -> bool {
    let code = c as u32;
    (0x09 <= code && code <= 0x0D) || code == 0x20 || code == 0x85 || code == 0xA0 || code
        == 0x1680 || (0x2000 <= code && code <= 0x200A) || code == 0x2028 || code == 0x2029
        || code == 0x202F || code == 0x205F || code == 0x3000
}

/// The lowercase form of an ASCII character.
pub open spec fn ascii_lowercase(c: char) -> char {
    if 'A' <= c && c <= 'Z' {
        ((c as u32) + 32) as char
    } else {
        c
    }
}

/// The lowercase form of a text, as the Unicode `Lowercase` mapping gives
/// it: in a text of ASCII characters, each capital letter becomes its small
/// letter and nothing else changes.
pub open spec fn lowercase(s: Seq<char>) -> Seq<char> {
    if is_ascii_text(s) {
        s.map_values(|c: char| ascii_lowercase(c))
    } else {
        lowercase_beyond_ascii(s)
    }
}

/// A code point that is a Unicode scalar value: not a surrogate and at most `0x10FFFF`.
pub open spec fn is_scalar_value(code: u32) -> bool {
    code < 0xD800 || (0xE000 <= code && code <= 0x10FFFF)
}

/// `char::is_alphabetic`: the result is the `Alphabetic` property of the character.
pub assume_specification[ char::is_alphabetic ](c: char) -> (b: bool)
    ensures
        b == alphabetic(c),
        !is_ascii(c) ==> b == alphabetic_beyond_ascii(c),
;

/// `char::is_alphanumeric`: true exactly for characters that are alphabetic or numeric.
pub assume_specification[ char::is_alphanumeric ](c: char) -> (b: bool)
    ensures
        b == (alphabetic(c) || numeric(c)),
        !is_ascii(c) ==> b == (alphabetic_beyond_ascii(c) || numeric_beyond_ascii(c)),
;

/// `char::is_whitespace`: the result is the `White_Space` property of the
/// character, which 25 characters have.
pub assume_specification[ char::is_whitespace ](c: char) -> (b: bool)
    ensures
        b == white_space(c),
;

/// `char::from_u32`: the character with the given code, where the code is a
/// Unicode scalar value, and nothing otherwise.
pub assume_specification[ char::from_u32 ](code: u32) -> (r: Option<char>)
    ensures
        is_scalar_value(code) ==> r == Some(code as char),
        !is_scalar_value(code) ==> r is None,
;

/// `str::to_lowercase`: the result is the lowercase form of the whole text.
pub assume_specification[ str::to_lowercase ](s: &str) -> (r: String)
    ensures
        r@ == lowercase(s@),
        !is_ascii_text(s@) ==> r@ == lowercase_beyond_ascii(s@),
;

/// `String::push`: appends one character at the end.
pub assume_specification[ String::push ](s: &mut String, c: char)
    ensures
        final(s)@ == old(s)@.push(c),
;

/// `String::from_utf8_lossy`, turned into an owned string: the lossy decoding
/// of the bytes, a function of the bytes alone; bytes that are valid UTF-8
/// decode to the text they encode.
#[verifier::external_body]
pub(crate) fn decode_utf8_lossy(bytes: &[u8]) -> (r: String)
    ensures
        r@ == utf8_lossy(bytes@),
        vstd::utf8::valid_utf8(bytes@) ==> r@ == vstd::utf8::decode_utf8(bytes@),
{
    String::from_utf8_lossy(bytes).into_owned()
}

} // verus!
