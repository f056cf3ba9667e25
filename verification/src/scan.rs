//! Forward scans over the characters of a document: runs of a character
//! class, the next occurrence of a delimiter, the brace that closes a group.

use vstd::prelude::*;
use crate::unicode::{alphabetic, numeric};

verus! {

/// The classes of characters that a scan can run over.
#[derive(Clone, Copy, Debug)]
pub enum CharClass {
    /// Letters.
    Letter,
    /// Letters and the star: the characters of a command name.
    Name,
    /// Letters, the star and the opening brace: the characters of an end marker.
    Marker,
    /// Letters and numbers.
    Alphanumeric,
    /// The decimal digits and the minus sign.
    Number,
    /// The decimal digits.
    Digit,
}

/// Whether a character is one of the ten decimal digits.
pub open spec fn is_digit(c: char) -> bool {
    '0' <= c && c <= '9'
}

/// Whether a character belongs to a class.
pub open spec fn in_class(class: CharClass, c: char) -> bool {
    match class {
        CharClass::Letter => alphabetic(c),
        CharClass::Name => alphabetic(c) || c == '*',
        CharClass::Marker => alphabetic(c) || c == '*' || c == '{',
        CharClass::Alphanumeric => alphabetic(c) || numeric(c),
        CharClass::Number => is_digit(c) || c == '-',
        CharClass::Digit => is_digit(c),
    }
}

/// The end of the longest run of characters of a class that starts at `pos`.
pub open spec fn run_end(s: Seq<char>, pos: int, class: CharClass) -> int
    decreases s.len() - pos,
{
    if 0 <= pos < s.len() && in_class(class, s[pos]) {
        run_end(s, pos + 1, class)
    } else {
        pos
    }
}

/// A run ends between its start and the end of the text.
pub proof fn lemma_run_end_bounds(s: Seq<char>, pos: int, class: CharClass)
    requires
        0 <= pos <= s.len(),
    ensures
        pos <= run_end(s, pos, class) <= s.len(),
        pos < s.len() && in_class(class, s[pos]) ==> pos < run_end(s, pos, class),
    decreases s.len() - pos,
{
    if pos < s.len() && in_class(class, s[pos]) {
        lemma_run_end_bounds(s, pos + 1, class);
    }
}

/// The index of the first `c` at or after `pos`, or the length of the text.
pub open spec fn find_char(s: Seq<char>, pos: int, c: char) -> int
    decreases s.len() - pos,
{
    if pos < 0 || pos >= s.len() {
        s.len() as int
    } else if s[pos] == c {
        pos
    } else {
        find_char(s, pos + 1, c)
    }
}

/// The first occurrence lies between the start and the end of the text, and
/// nothing before it is the character sought.
pub proof fn lemma_find_char(s: Seq<char>, pos: int, c: char)
    requires
        0 <= pos <= s.len(),
    ensures
        pos <= find_char(s, pos, c) <= s.len(),
        find_char(s, pos, c) < s.len() ==> s[find_char(s, pos, c)] == c,
        forall|k: int| pos <= k < find_char(s, pos, c) ==> s[k] != c,
    decreases s.len() - pos,
{
    if pos < s.len() && s[pos] != c {
        lemma_find_char(s, pos + 1, c);
    }
}

/// The position after the delimiter found at `idx`: one further, unless the
/// text ended without one.
pub open spec fn past(s: Seq<char>, idx: int) -> int {
    if idx < s.len() {
        idx + 1
    } else {
        s.len() as int
    }
}

/// The index of the brace that closes a group, read from `pos` with `depth`
/// groups open, or the length of the text where none closes it. A backslash
/// takes the next character with it, so that an escaped brace does not count.
pub open spec fn brace_close(s: Seq<char>, pos: int, depth: nat) -> int
    decreases s.len() - pos,
{
    if pos < 0 || pos >= s.len() {
        s.len() as int
    } else if s[pos] == '\\' {
        if pos + 1 < s.len() {
            brace_close(s, pos + 2, depth)
        } else {
            s.len() as int
        }
    } else if s[pos] == '{' {
        brace_close(s, pos + 1, depth + 1)
    } else if s[pos] == '}' {
        if depth <= 1 {
            pos
        } else {
            brace_close(s, pos + 1, (depth - 1) as nat)
        }
    } else {
        brace_close(s, pos + 1, depth)
    }
}

/// The closing brace lies between the start and the end of the text.
pub proof fn lemma_brace_close_bounds(s: Seq<char>, pos: int, depth: nat)
    requires
        0 <= pos <= s.len(),
    ensures
        pos <= brace_close(s, pos, depth) <= s.len(),
    decreases s.len() - pos,
{
    if pos < s.len() {
        if s[pos] == '\\' {
            if pos + 1 < s.len() {
                lemma_brace_close_bounds(s, pos + 2, depth);
            }
        } else if s[pos] == '{' {
            lemma_brace_close_bounds(s, pos + 1, depth + 1);
        } else if s[pos] == '}' {
            if depth > 1 {
                lemma_brace_close_bounds(s, pos + 1, (depth - 1) as nat);
            }
        } else {
            lemma_brace_close_bounds(s, pos + 1, depth);
        }
    }
}

/// The end of a command name that starts at `pos`: a run of name characters,
/// or else the single character that stands there.
pub open spec fn command_name_end(s: Seq<char>, pos: int) -> int {
    if pos < 0 || pos >= s.len() {
        pos
    } else if in_class(CharClass::Name, s[pos]) {
        run_end(s, pos, CharClass::Name)
    } else {
        pos + 1
    }
}

/// A command name that starts inside the text is not empty and ends inside it.
pub proof fn lemma_command_name_end(s: Seq<char>, pos: int)
    requires
        0 <= pos <= s.len(),
    ensures
        pos <= command_name_end(s, pos) <= s.len(),
        pos < s.len() ==> pos < command_name_end(s, pos),
{
    lemma_run_end_bounds(s, pos, CharClass::Name);
}

/// Whether a character belongs to a class.
pub fn has_class(class: CharClass, c: char) -> (b: bool)
    ensures
        b == in_class(class, c),
{
    match class {
        CharClass::Letter => c.is_alphabetic(),
        CharClass::Name => c.is_alphabetic() || c == '*',
        CharClass::Marker => c.is_alphabetic() || c == '*' || c == '{',
        CharClass::Alphanumeric => c.is_alphanumeric(),
        CharClass::Number => digit(c) || c == '-',
        CharClass::Digit => digit(c),
    }
}

/// Whether a character is one of the ten decimal digits.
pub fn digit(c: char) -> (b: bool)
    ensures
        b == is_digit(c),
{
    '0' <= c && c <= '9'
}

/// Scans over the run of characters of a class that starts at `pos`.
pub fn scan_run(chars: &Vec<char>, pos: usize, class: CharClass) -> (end: usize)
    requires
        pos <= chars.len(),
    ensures
        end == run_end(chars@, pos as int, class),
        pos <= end <= chars.len(),
{
    let mut i: usize = pos;
    while i < chars.len() && has_class(class, chars[i])
        invariant
            pos <= i <= chars.len(),
            run_end(chars@, i as int, class) == run_end(chars@, pos as int, class),
        decreases chars.len() - i,
    {
        i += 1;
    }
    i
}

/// Scans for the first `c` at or after `pos`.
pub fn scan_to(chars: &Vec<char>, pos: usize, c: char) -> (idx: usize)
    requires
        pos <= chars.len(),
    ensures
        idx == find_char(chars@, pos as int, c),
        pos <= idx <= chars.len(),
{
    let mut i: usize = pos;
    while i < chars.len() && chars[i] != c
        invariant
            pos <= i <= chars.len(),
            find_char(chars@, i as int, c) == find_char(chars@, pos as int, c),
        decreases chars.len() - i,
    {
        i += 1;
    }
    i
}

/// The position after a delimiter found at `idx`.
pub fn step_past(chars: &Vec<char>, idx: usize) -> (next: usize)
    requires
        idx <= chars.len(),
    ensures
        next == past(chars@, idx as int),
        idx <= next <= chars.len(),
{
    if idx < chars.len() {
        idx + 1
    } else {
        idx
    }
}

/// Scans for the brace that closes the group open at `pos`.
pub fn scan_brace_close(chars: &Vec<char>, pos: usize) -> (idx: usize)
    requires
        pos <= chars.len(),
    ensures
        idx == brace_close(chars@, pos as int, 1),
        pos <= idx <= chars.len(),
{
    let mut i: usize = pos;
    let mut depth: u128 = 1;
    while i < chars.len()
        invariant
            pos <= i <= chars.len(),
            1 <= depth <= 1 + i - pos,
            brace_close(chars@, i as int, depth as nat) == brace_close(chars@, pos as int, 1),
        decreases chars.len() - i,
    {
        let c = chars[i];
        if c == '\\' {
            if i + 1 < chars.len() {
                i += 2;
            } else {
                i += 1;
            }
        } else if c == '{' {
            depth += 1;
            i += 1;
        } else if c == '}' {
            if depth <= 1 {
                return i;
            }
            depth -= 1;
            i += 1;
        } else {
            i += 1;
        }
    }
    i
}

/// Scans over the command name that starts at `pos`.
pub fn scan_command_name(chars: &Vec<char>, pos: usize) -> (end: usize)
    requires
        pos <= chars.len(),
    ensures
        end == command_name_end(chars@, pos as int),
        pos <= end <= chars.len(),
        pos < chars.len() ==> pos < end,
{
    proof {
        lemma_command_name_end(chars@, pos as int);
    }
    if pos >= chars.len() {
        pos
    } else if has_class(CharClass::Name, chars[pos]) {
        scan_run(chars, pos, CharClass::Name)
    } else {
        pos + 1
    }
}

} // verus!
