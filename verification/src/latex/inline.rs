//! Inline content: the text of an argument, a title or a cell, in which
//! every command stands for what it emits in the body of a document.

use vstd::prelude::*;
use crate::latex::command::{
    arg_next, arg_text, at_arg, cite_step, classify, closing, command_kind, emit_cite,
    emit_math, emit_symbol, emit_verb, end_next, has_arg, lemma_arg_bounds,
    lemma_math_close_bounds, lemma_rule_bounds, lemma_skip_bracket_bounds, markup_close,
    markup_inline, markup_open, math_step, opening, pass_bracket, pass_empty_group,
    pass_end, pass_preamble, pass_rule, pass_setting, preamble_next, read_arg, reads_inline,
    rule_next, setting_next, skip_bracket, skip_empty_group, symbol_text, verb_step, CommandKind,
    Markup, Step,
};
use crate::scan::{
    command_name_end, find_char, lemma_command_name_end, lemma_find_char, past,
    scan_command_name,
};
use crate::text::{push_chars, push_str, slice_of};

verus! {

/// How deep arguments inside arguments are read as inline content. An
/// argument that lies deeper is taken as it stands.
pub const INLINE_DEPTH: usize = 32;

/// The position behind the command `name` and its arguments, with `pos`
/// behind the name.
pub open spec fn text_next(s: Seq<char>, pos: int, name: Seq<char>) -> int {
    match command_kind(name) {
        CommandKind::Begin => end_next(s, pos),
        CommandKind::End => end_next(s, pos),
        CommandKind::Preamble => preamble_next(s, pos),
        CommandKind::Setting => setting_next(s, pos),
        CommandKind::Wrapped(_) => setting_next(s, pos),
        CommandKind::Bracketed(_) => setting_next(s, skip_bracket(s, pos)),
        CommandKind::Named(_) => skip_empty_group(s, pos),
        CommandKind::Escape => pos,
        CommandKind::LineBreak => pos,
        CommandKind::Rule => rule_next(s, pos),
        CommandKind::Href => rule_next(s, pos),
        CommandKind::Cite => cite_step(s, pos).next,
        CommandKind::Verb => verb_step(s, pos).next,
        CommandKind::Footnote => if has_arg(s, pos) {
            arg_next(s, pos)
        } else {
            skip_bracket(s, pos)
        },
        CommandKind::Unknown => if has_arg(s, pos) {
            arg_next(s, pos)
        } else {
            skip_bracket(s, pos)
        },
    }
}

/// Every command ends inside the text, at or behind its name.
pub proof fn lemma_text_next_bounds(s: Seq<char>, pos: int, name: Seq<char>)
    requires
        0 <= pos <= s.len(),
    ensures
        pos <= text_next(s, pos, name) <= s.len(),
{
    lemma_skip_bracket_bounds(s, pos);
    lemma_rule_bounds(s, pos);
    if has_arg(s, pos) {
        lemma_arg_bounds(s, pos);
        let mid = arg_next(s, pos);
        lemma_skip_bracket_bounds(s, mid);
        if has_arg(s, mid) {
            lemma_arg_bounds(s, mid);
        }
        lemma_find_char(s, pos + 1, '}');
    }
    let b = skip_bracket(s, pos);
    if has_arg(s, b) {
        lemma_arg_bounds(s, b);
    }
    if pos < s.len() {
        lemma_find_char(s, pos + 1, s[pos]);
        lemma_find_char(s, pos + 1, ']');
        let mid = past(s, find_char(s, pos + 1, ']'));
        if has_arg(s, mid) {
            lemma_arg_bounds(s, mid);
        }
    }
}

/// Math ends inside the text, behind the dollar sign that opened it.
pub proof fn lemma_math_step_bounds(s: Seq<char>, pos: int)
    requires
        0 <= pos <= s.len(),
    ensures
        pos <= math_step(s, pos).next <= s.len(),
{
    if pos < s.len() && s[pos] == '$' {
        lemma_math_close_bounds(s, pos + 1, false, true);
    } else {
        lemma_math_close_bounds(s, pos, false, false);
    }
}

/// An argument read as inline content `depth` levels deep: its inline text,
/// or the argument as it stands where no level is left.
pub open spec fn inline_body(arg: Seq<char>, depth: nat) -> Seq<char>
    decreases depth, 1int, 0int,
{
    if depth > 0 {
        inline_at(arg, 0, (depth - 1) as nat)
    } else {
        arg
    }
}

/// What a command with one argument in braces emits: the argument between
/// the markers, read as inline content where the markup asks for it.
/// Without an argument nothing is emitted.
pub open spec fn wrapped_text(s: Seq<char>, pos: int, m: Markup, depth: nat) -> Seq<char>
    decreases depth, 2int, 0int,
{
    if has_arg(s, pos) {
        if markup_inline(m) {
            markup_open(m) + inline_body(arg_text(s, pos), depth) + markup_close(m)
        } else {
            markup_open(m) + arg_text(s, pos) + markup_close(m)
        }
    } else {
        Seq::empty()
    }
}

/// What a link emits: the text of the second argument in brackets, the
/// first argument in parentheses. Without the second argument nothing is
/// emitted.
pub open spec fn href_text(s: Seq<char>, pos: int, depth: nat) -> Seq<char>
    decreases depth, 2int, 0int,
{
    if has_arg(s, pos) && has_arg(s, arg_next(s, pos)) {
        "["@ + inline_body(arg_text(s, arg_next(s, pos)), depth) + "]("@ + arg_text(s, pos) + ")"@
    } else {
        Seq::empty()
    }
}

/// What the command `name` emits, with `pos` behind the name. An escaped
/// character stands for itself and a named symbol for its text; a
/// formatting command puts its argument between its markers; a command
/// that is not known, and a footnote, keep the inline text of their
/// argument; the commands of the preamble, the settings and the marks of an
/// environment emit nothing.
pub open spec fn text_emitted(s: Seq<char>, pos: int, name: Seq<char>, depth: nat) -> Seq<char>
    decreases depth, 3int, 0int,
{
    match command_kind(name) {
        CommandKind::Begin => Seq::empty(),
        CommandKind::End => Seq::empty(),
        CommandKind::Preamble => Seq::empty(),
        CommandKind::Setting => Seq::empty(),
        CommandKind::Wrapped(m) => wrapped_text(s, pos, m, depth),
        CommandKind::Bracketed(m) => wrapped_text(s, skip_bracket(s, pos), m, depth),
        CommandKind::Named(sym) => symbol_text(sym),
        CommandKind::Escape => name,
        CommandKind::LineBreak => "\n"@,
        CommandKind::Rule => "---\n"@,
        CommandKind::Href => href_text(s, pos, depth),
        CommandKind::Cite => cite_step(s, pos).text,
        CommandKind::Verb => verb_step(s, pos).text,
        CommandKind::Footnote => wrapped_text(s, pos, Markup::Plain, depth),
        CommandKind::Unknown => wrapped_text(s, pos, Markup::Plain, depth),
    }
}

/// What the command `name` emits and where reading goes on.
pub open spec fn text_step(s: Seq<char>, pos: int, name: Seq<char>, depth: nat) -> Step {
    Step { text: text_emitted(s, pos, name, depth), next: text_next(s, pos, name) }
}

/// The inline text of `s` from `pos` on, read `depth` levels deep: a
/// backslash with its command name gives what the command emits, a dollar
/// sign starts math, every other character stands for itself.
pub open spec fn inline_at(s: Seq<char>, pos: int, depth: nat) -> Seq<char>
    decreases depth, 4int, s.len() - pos,
{
    if pos < 0 || pos >= s.len() {
        Seq::empty()
    } else if s[pos] == '\\' && pos + 1 < s.len() {
        let end = command_name_end(s, pos + 1);
        let name = s.subrange(pos + 1, end);
        proof {
            lemma_command_name_end(s, pos + 1);
            lemma_text_next_bounds(s, end, name);
        }
        text_emitted(s, end, name, depth) + inline_at(s, text_next(s, end, name), depth)
    } else if s[pos] == '$' {
        proof {
            lemma_math_step_bounds(s, pos + 1);
        }
        math_step(s, pos + 1).text + inline_at(s, math_step(s, pos + 1).next, depth)
    } else {
        seq![s[pos]] + inline_at(s, pos + 1, depth)
    }
}

/// The inline text of an argument.
pub open spec fn inline_text(s: Seq<char>) -> Seq<char> {
    inline_at(s, 0, INLINE_DEPTH as nat)
}

fn push_inline_body(out: &mut Vec<char>, arg: &Vec<char>, depth: usize)
    ensures
        final(out)@ == old(out)@ + inline_body(arg@, depth as nat),
    decreases depth, 1int, 0int,
{
    if depth > 0 {
        let body = inline_depth(arg, depth - 1);
        push_chars(out, &body);
    } else {
        push_chars(out, arg);
    }
}

/// Emits a command with one argument between markers.
pub fn emit_wrapped(chars: &Vec<char>, pos: usize, m: Markup, depth: usize, out: &mut Vec<char>) -> (next:
    usize)
    requires
        pos <= chars.len(),
    ensures
        final(out)@ == old(out)@ + wrapped_text(chars@, pos as int, m, depth as nat),
        next == setting_next(chars@, pos as int),
        pos <= next <= chars.len(),
    decreases depth, 2int, 0int,
{
    let ghost before = out@;
    if at_arg(chars, pos) {
        let (arg, next) = read_arg(chars, pos);
        push_str(out, opening(m));
        if reads_inline(m) {
            push_inline_body(out, &arg, depth);
            push_str(out, closing(m));
            assert(out@ == before + (markup_open(m) + inline_body(arg@, depth as nat)
                + markup_close(m)));
        } else {
            push_chars(out, &arg);
            push_str(out, closing(m));
            assert(out@ == before + (markup_open(m) + arg@ + markup_close(m)));
        }
        next
    } else {
        assert(out@ == before + Seq::<char>::empty());
        pos
    }
}

/// Emits a link.
pub fn emit_href(chars: &Vec<char>, pos: usize, depth: usize, out: &mut Vec<char>) -> (next: usize)
    requires
        pos <= chars.len(),
    ensures
        final(out)@ == old(out)@ + href_text(chars@, pos as int, depth as nat),
        next == rule_next(chars@, pos as int),
        pos <= next <= chars.len(),
    decreases depth, 2int, 0int,
{
    let ghost before = out@;
    if at_arg(chars, pos) {
        let (url, mid) = read_arg(chars, pos);
        if at_arg(chars, mid) {
            let (label, next) = read_arg(chars, mid);
            push_str(out, "[");
            push_inline_body(out, &label, depth);
            push_str(out, "](");
            push_chars(out, &url);
            push_str(out, ")");
            assert(out@ == before + ("["@ + inline_body(label@, depth as nat) + "]("@ + url@
                + ")"@));
            next
        } else {
            assert(out@ == before + Seq::<char>::empty());
            mid
        }
    } else {
        assert(out@ == before + Seq::<char>::empty());
        pos
    }
}

/// Emits what the command `name` emits, and passes over its arguments.
pub fn emit_text(
    chars: &Vec<char>,
    pos: usize,
    name: &Vec<char>,
    depth: usize,
    out: &mut Vec<char>,
) -> (next: usize)
    requires
        pos <= chars.len(),
    ensures
        final(out)@ == old(out)@ + text_emitted(chars@, pos as int, name@, depth as nat),
        next == text_next(chars@, pos as int, name@),
        pos <= next <= chars.len(),
    decreases depth, 3int, 0int,
{
    let ghost before = out@;
    proof {
        lemma_text_next_bounds(chars@, pos as int, name@);
    }
    match classify(name) {
        CommandKind::Begin => {
            assert(out@ == before + Seq::<char>::empty());
            pass_end(chars, pos)
        },
        CommandKind::End => {
            assert(out@ == before + Seq::<char>::empty());
            pass_end(chars, pos)
        },
        CommandKind::Preamble => {
            assert(out@ == before + Seq::<char>::empty());
            pass_preamble(chars, pos)
        },
        CommandKind::Setting => {
            assert(out@ == before + Seq::<char>::empty());
            pass_setting(chars, pos)
        },
        CommandKind::Wrapped(m) => emit_wrapped(chars, pos, m, depth, out),
        CommandKind::Bracketed(m) => {
            let start = pass_bracket(chars, pos);
            emit_wrapped(chars, start, m, depth, out)
        },
        CommandKind::Named(sym) => {
            emit_symbol(sym, out);
            pass_empty_group(chars, pos)
        },
        CommandKind::Escape => {
            push_chars(out, name);
            pos
        },
        CommandKind::LineBreak => {
            push_str(out, "\n");
            pos
        },
        CommandKind::Rule => {
            let next = pass_rule(chars, pos);
            push_str(out, "---\n");
            next
        },
        CommandKind::Href => emit_href(chars, pos, depth, out),
        CommandKind::Cite => emit_cite(chars, pos, out),
        CommandKind::Verb => emit_verb(chars, pos, out),
        CommandKind::Footnote => {
            if at_arg(chars, pos) {
                emit_wrapped(chars, pos, Markup::Plain, depth, out)
            } else {
                assert(out@ == before + Seq::<char>::empty());
                pass_bracket(chars, pos)
            }
        },
        CommandKind::Unknown => {
            if at_arg(chars, pos) {
                emit_wrapped(chars, pos, Markup::Plain, depth, out)
            } else {
                assert(out@ == before + Seq::<char>::empty());
                pass_bracket(chars, pos)
            }
        },
    }
}

/// Reads inline content `depth` levels deep.
pub fn inline_depth(content: &Vec<char>, depth: usize) -> (r: Vec<char>)
    ensures
        r@ == inline_at(content@, 0, depth as nat),
    decreases depth, 4int, 0int,
{
    let mut r: Vec<char> = Vec::new();
    let mut i: usize = 0;
    while i < content.len()
        invariant
            i <= content.len(),
            r@ + inline_at(content@, i as int, depth as nat) == inline_at(
                content@,
                0,
                depth as nat,
            ),
        decreases content.len() - i,
    {
        let c = content[i];
        let ghost before = r@;
        if c == '\\' && i + 1 < content.len() {
            let end = scan_command_name(content, i + 1);
            let name = slice_of(content, i + 1, end);
            let next = emit_text(content, end, &name, depth, &mut r);
            proof {
                assert(before + (text_emitted(content@, end as int, name@, depth as nat)
                    + inline_at(content@, next as int, depth as nat)) == r@ + inline_at(
                    content@,
                    next as int,
                    depth as nat,
                ));
            }
            i = next;
        } else if c == '$' {
            let next = emit_math(content, i + 1, &mut r);
            proof {
                assert(before + (math_step(content@, i + 1).text + inline_at(
                    content@,
                    next as int,
                    depth as nat,
                )) == r@ + inline_at(content@, next as int, depth as nat));
            }
            i = next;
        } else {
            r.push(c);
            proof {
                assert(before + (seq![c] + inline_at(content@, i + 1, depth as nat)) == r@
                    + inline_at(content@, i + 1, depth as nat));
            }
            i += 1;
        }
    }
    assert(r@ + Seq::<char>::empty() == r@);
    r
}

/// Reads inline content.
pub fn inline_content(content: &Vec<char>) -> (r: Vec<char>)
    ensures
        r@ == inline_text(content@),
{
    inline_depth(content, INLINE_DEPTH)
}

} // verus!
