//! Environments: the raw content between a `\begin` and its `\end`, and the
//! list environments.

use vstd::prelude::*;
use crate::scan::{lemma_run_end_bounds, run_end, scan_run, CharClass};
use crate::text::{chars_eq, push_chars, push_str, same_chars, slice_of};

verus! {

/// Whether the text of a marker closes the environment `env`: it starts with
/// `\end{` and the name, or is a bare `\end`.
pub open spec fn is_end_marker(marker: Seq<char>, env: Seq<char>) -> bool {
    ("\\end{"@ + env).is_prefix_of(marker) || marker == "\\end"@
}

/// The index of the backslash of the first end marker for `env` at or after
/// `pos`, or the length of the text. A marker is a backslash with the run of
/// marker characters behind it; a backslash that opens no end marker is
/// passed over together with its run.
pub open spec fn end_marker_at(s: Seq<char>, pos: int, env: Seq<char>) -> int
    decreases s.len() - pos,
{
    if pos < 0 || pos >= s.len() {
        s.len() as int
    } else if s[pos] == '\\' {
        let end = run_end(s, pos + 1, CharClass::Marker);
        proof {
            lemma_run_end_bounds(s, pos + 1, CharClass::Marker);
        }
        if is_end_marker(s.subrange(pos, end), env) {
            pos
        } else {
            end_marker_at(s, end, env)
        }
    } else {
        end_marker_at(s, pos + 1, env)
    }
}

/// The end marker lies between the start and the end of the text.
pub proof fn lemma_end_marker_bounds(s: Seq<char>, pos: int, env: Seq<char>)
    requires
        0 <= pos <= s.len(),
    ensures
        pos <= end_marker_at(s, pos, env) <= s.len(),
    decreases s.len() - pos,
{
    if pos < s.len() {
        if s[pos] == '\\' {
            let end = run_end(s, pos + 1, CharClass::Marker);
            lemma_run_end_bounds(s, pos + 1, CharClass::Marker);
            if !is_end_marker(s.subrange(pos, end), env) {
                lemma_end_marker_bounds(s, end, env);
            }
        } else {
            lemma_end_marker_bounds(s, pos + 1, env);
        }
    }
}

/// The position after the first brace group that is complete at or after
/// `pos`: after the closing brace that brings the depth back to zero once a
/// brace was opened, or the length of the text.
pub open spec fn group_end(s: Seq<char>, pos: int, depth: int, opened: bool) -> int
    decreases s.len() - pos,
{
    if pos < 0 || pos >= s.len() {
        s.len() as int
    } else if s[pos] == '{' {
        group_end(s, pos + 1, depth + 1, true)
    } else if s[pos] == '}' {
        if depth == 1 && opened {
            pos + 1
        } else {
            group_end(s, pos + 1, depth - 1, opened)
        }
    } else {
        group_end(s, pos + 1, depth, opened)
    }
}

/// A brace group ends between the start and the end of the text.
pub proof fn lemma_group_end_bounds(s: Seq<char>, pos: int, depth: int, opened: bool)
    requires
        0 <= pos <= s.len(),
    ensures
        pos <= group_end(s, pos, depth, opened) <= s.len(),
    decreases s.len() - pos,
{
    if pos < s.len() {
        if s[pos] == '{' {
            lemma_group_end_bounds(s, pos + 1, depth + 1, true);
        } else if s[pos] == '}' {
            if !(depth == 1 && opened) {
                lemma_group_end_bounds(s, pos + 1, depth - 1, opened);
            }
        } else {
            lemma_group_end_bounds(s, pos + 1, depth, opened);
        }
    }
}

/// The content of an environment whose body starts at `pos`: all that stands
/// before its end marker.
pub open spec fn environment_content(s: Seq<char>, pos: int, env: Seq<char>) -> Seq<char> {
    s.subrange(pos, end_marker_at(s, pos, env))
}

/// The position at which reading goes on after the environment: behind the
/// brace group of its end marker.
pub open spec fn environment_next(s: Seq<char>, pos: int, env: Seq<char>) -> int {
    if end_marker_at(s, pos, env) < s.len() {
        group_end(s, end_marker_at(s, pos, env) + 1, 0, false)
    } else {
        s.len() as int
    }
}

fn scan_group_end(chars: &Vec<char>, pos: usize) -> (next: usize)
    requires
        pos <= chars.len(),
    ensures
        next == group_end(chars@, pos as int, 0, false),
        pos <= next <= chars.len(),
{
    let mut i: usize = pos;
    let mut depth: i128 = 0;
    let mut opened = false;
    while i < chars.len()
        invariant
            pos <= i <= chars.len(),
            pos - i <= depth <= i - pos,
            group_end(chars@, i as int, depth as int, opened) == group_end(
                chars@,
                pos as int,
                0,
                false,
            ),
        decreases chars.len() - i,
    {
        let c = chars[i];
        if c == '{' {
            depth += 1;
            opened = true;
        } else if c == '}' {
            if depth == 1 && opened {
                return i + 1;
            }
            depth -= 1;
        }
        i += 1;
    }
    i
}

fn is_end_marker_text(marker: &Vec<char>, env: &Vec<char>) -> (b: bool)
    ensures
        b == is_end_marker(marker@, env@),
{
    if chars_eq(marker, "\\end") {
        return true;
    }
    let mut prefix: Vec<char> = Vec::new();
    push_str(&mut prefix, "\\end{");
    push_chars(&mut prefix, env);
    if prefix.len() > marker.len() {
        return false;
    }
    let head = slice_of(marker, 0, prefix.len());
    same_chars(&head, &prefix)
}

fn scan_end_marker(chars: &Vec<char>, pos: usize, env: &Vec<char>) -> (idx: usize)
    requires
        pos <= chars.len(),
    ensures
        idx == end_marker_at(chars@, pos as int, env@),
        pos <= idx <= chars.len(),
{
    let mut i: usize = pos;
    while i < chars.len()
        invariant
            pos <= i <= chars.len(),
            end_marker_at(chars@, i as int, env@) == end_marker_at(chars@, pos as int, env@),
        decreases chars.len() - i,
    {
        if chars[i] == '\\' {
            let end = scan_run(chars, i + 1, CharClass::Marker);
            let marker = slice_of(chars, i, end);
            if is_end_marker_text(&marker, env) {
                return i;
            }
            i = end;
        } else {
            i += 1;
        }
    }
    i
}

/// Reads the environment `env` whose body starts at `pos`: its raw content
/// and the position behind its end.
pub fn read_environment(chars: &Vec<char>, pos: usize, env: &Vec<char>) -> (r: (Vec<char>, usize))
    requires
        pos <= chars.len(),
    ensures
        r.0@ == environment_content(chars@, pos as int, env@),
        r.1 == environment_next(chars@, pos as int, env@),
        pos <= r.1 <= chars.len(),
{
    let marker = scan_end_marker(chars, pos, env);
    let content = slice_of(chars, pos, marker);
    if marker < chars.len() {
        let next = scan_group_end(chars, marker + 1);
        (content, next)
    } else {
        (content, marker)
    }
}

} // verus!
