//! The body of a document: one pass over its characters that emits text and
//! collects tables.

use vstd::prelude::*;
use crate::latex::command::{
    arg_next, arg_text, at_arg, classify, command_kind, emit_math, has_arg, lemma_arg_bounds,
    lemma_math_close_bounds, lemma_skip_bracket_bounds, math_step, pass_bracket, pass_setting,
    read_arg, setting_next, skip_bracket, CommandKind, Markup, Step,
};
use crate::latex::environment::{
    end_marker_at, environment_content, environment_next, lemma_end_marker_bounds,
    lemma_group_end_bounds, read_environment,
};
use crate::latex::inline::{
    emit_text, emit_wrapped, inline_content, inline_text, lemma_text_next_bounds, text_step,
    wrapped_text, INLINE_DEPTH,
};
use crate::latex::list::{list_lines, list_text};
use crate::scan::{
    command_name_end, find_char, lemma_command_name_end, lemma_find_char, past,
    scan_command_name, scan_to, step_past,
};
use crate::latex::tabular::{parse_table, tabular_cells};
use crate::text::{
    chars_eq, decimal, push_chars, push_decimal, push_str, slice_of, trim, trimmed, utf8_len,
    utf8_len_mod,
};
use crate::types::{table_markdown, table_wf, tables_view, Table, TableView};

verus! {

/// What one step of the pass does: the text it emits, the position at which
/// reading goes on, the table it found, whether the document body starts,
/// and the note it leaves for the end of the output.
pub struct Outcome {
    pub text: Seq<char>,
    pub next: int,
    pub table: Option<Seq<Seq<Seq<char>>>>,
    pub enters_document: bool,
    pub note: Seq<char>,
}

/// Where the pass stands: the text emitted, the tables found, whether the
/// document body has started, and the notes that wait for the end.
pub struct ContentState {
    pub text: Seq<char>,
    pub tables: Seq<TableView>,
    pub in_document: bool,
    pub notes: Seq<char>,
}

/// A step that emits text and nothing more.
pub open spec fn plain(step: Step) -> Outcome {
    Outcome {
        text: step.text,
        next: step.next,
        table: None,
        enters_document: false,
        note: Seq::empty(),
    }
}

/// The table of a cell matrix: on page one, with its rendering.
pub open spec fn table_of(cells: Seq<Seq<Seq<char>>>) -> TableView {
    TableView { cells, markdown: table_markdown(cells), page_number: 1 }
}

/// The number of a footnote: the length in bytes, modulo 1000, of the text
/// emitted before its marker.
pub open spec fn footnote_number(out: Seq<char>) -> nat {
    utf8_len(out) % 1000
}

/// The marker of a footnote in the text.
pub open spec fn footnote_mark(out: Seq<char>) -> Seq<char> {
    " [^"@ + decimal(footnote_number(out)) + "]"@
}

/// A footnote: its marker in the text, and its note, under the number of
/// the marker, for the end of the output.
pub open spec fn footnote_outcome(s: Seq<char>, pos: int, out: Seq<char>) -> Outcome {
    if has_arg(s, pos) {
        Outcome {
            text: footnote_mark(out),
            next: arg_next(s, pos),
            table: None,
            enters_document: false,
            note: "\n\n[^"@ + decimal(footnote_number(out)) + "]: "@ + inline_text(
                arg_text(s, pos),
            ) + "\n\n"@,
        }
    } else {
        plain(Step { text: Seq::empty(), next: pos })
    }
}

/// The text of an environment that is no table: the lines of a list, the raw
/// content of a verbatim environment, the inline text of any other.
pub open spec fn environment_text(env: Seq<char>, content: Seq<char>) -> Seq<char> {
    if env == "itemize"@ || env == "enumerate"@ || env == "description"@ {
        list_text(content, env)
    } else if env == "verbatim"@ || env == "Verbatim"@ || env == "obeylines"@ {
        content
    } else {
        inline_text(content)
    }
}

/// The position at which the content of a `tabular` environment starts,
/// with `pos` behind the name of the environment: behind an optional
/// argument in brackets and the column specification in braces.
pub open spec fn tabular_start(s: Seq<char>, pos: int) -> int {
    setting_next(s, skip_bracket(s, pos))
}

/// `\begin`, with `pos` behind the command. The `document` environment
/// starts the body. Any other environment is read to its end: a `tabular`
/// gives a table and its rendering, the others their text, each followed by
/// a newline.
pub open spec fn begin_outcome(s: Seq<char>, pos: int) -> Outcome {
    if has_arg(s, pos) {
        let close = find_char(s, pos + 1, '}');
        let env = s.subrange(pos + 1, close);
        let body = past(s, close);
        if env == "document"@ {
            Outcome {
                text: Seq::empty(),
                next: body,
                table: None,
                enters_document: true,
                note: Seq::empty(),
            }
        } else if env == "tabular"@ {
            let start = tabular_start(s, body);
            let cells = tabular_cells(environment_content(s, start, env));
            let next = environment_next(s, start, env);
            if cells.len() > 0 {
                Outcome {
                    text: table_markdown(cells) + "\n"@,
                    next,
                    table: Some(cells),
                    enters_document: false,
                    note: Seq::empty(),
                }
            } else {
                plain(Step { text: Seq::empty(), next })
            }
        } else {
            plain(
                Step {
                    text: environment_text(env, environment_content(s, body, env)) + "\n"@,
                    next: environment_next(s, body, env),
                },
            )
        }
    } else {
        plain(Step { text: Seq::empty(), next: pos })
    }
}

/// What the command `name` does, with `pos` behind the name and `out` the
/// text emitted so far: `\begin` opens an environment, a footnote leaves
/// its note, and every other command emits its text.
pub open spec fn command_outcome(s: Seq<char>, pos: int, name: Seq<char>, out: Seq<char>) -> Outcome {
    match command_kind(name) {
        CommandKind::Begin => begin_outcome(s, pos),
        CommandKind::Footnote => footnote_outcome(s, pos, out),
        _ => plain(text_step(s, pos, name, INLINE_DEPTH as nat)),
    }
}

/// One step of the pass at `pos`. A backslash starts a group, whose content
/// is read as inline text, or a command; a dollar sign starts math; any other
/// character is text of the document once its body has started.
pub open spec fn content_step(s: Seq<char>, pos: int, st: ContentState) -> Outcome {
    if s[pos] == '\\' {
        if pos + 1 >= s.len() {
            plain(Step { text: seq!['\\'], next: pos + 1 })
        } else if s[pos + 1] == '{' {
            plain(
                Step {
                    text: wrapped_text(s, pos + 1, Markup::Plain, INLINE_DEPTH as nat),
                    next: setting_next(s, pos + 1),
                },
            )
        } else {
            let end = command_name_end(s, pos + 1);
            command_outcome(s, end, s.subrange(pos + 1, end), st.text)
        }
    } else if s[pos] == '$' {
        plain(math_step(s, pos + 1))
    } else if st.in_document {
        plain(Step { text: seq![s[pos]], next: pos + 1 })
    } else {
        plain(Step { text: Seq::empty(), next: pos + 1 })
    }
}

/// The state after a step.
pub open spec fn advance(st: ContentState, o: Outcome) -> ContentState {
    ContentState {
        text: st.text + o.text,
        tables: match o.table {
            Some(cells) => st.tables.push(table_of(cells)),
            None => st.tables,
        },
        in_document: st.in_document || o.enters_document,
        notes: st.notes + o.note,
    }
}

/// `\begin` ends inside the text.
pub proof fn lemma_begin_bounds(s: Seq<char>, pos: int)
    requires
        0 <= pos <= s.len(),
    ensures
        pos <= begin_outcome(s, pos).next <= s.len(),
{
    if has_arg(s, pos) {
        lemma_find_char(s, pos + 1, '}');
        let close = find_char(s, pos + 1, '}');
        let env = s.subrange(pos + 1, close);
        let body = past(s, close);
        lemma_end_marker_bounds(s, body, env);
        if end_marker_at(s, body, env) < s.len() {
            lemma_group_end_bounds(s, end_marker_at(s, body, env) + 1, 0, false);
        }
        lemma_skip_bracket_bounds(s, body);
        if has_arg(s, skip_bracket(s, body)) {
            lemma_arg_bounds(s, skip_bracket(s, body));
        }
        let start = tabular_start(s, body);
        lemma_end_marker_bounds(s, start, env);
        if end_marker_at(s, start, env) < s.len() {
            lemma_group_end_bounds(s, end_marker_at(s, start, env) + 1, 0, false);
        }
    }
}

/// Every command ends inside the text, at or behind its name.
pub proof fn lemma_command_bounds(s: Seq<char>, pos: int, name: Seq<char>, out: Seq<char>)
    requires
        0 <= pos <= s.len(),
    ensures
        pos <= command_outcome(s, pos, name, out).next <= s.len(),
{
    lemma_begin_bounds(s, pos);
    lemma_text_next_bounds(s, pos, name);
    if has_arg(s, pos) {
        lemma_arg_bounds(s, pos);
    }
}

/// Every step moves forward and ends inside the text.
pub proof fn lemma_step_bounds(s: Seq<char>, pos: int, st: ContentState)
    requires
        0 <= pos < s.len(),
    ensures
        pos < content_step(s, pos, st).next <= s.len(),
{
    if s[pos] == '\\' {
        if pos + 1 < s.len() {
            if s[pos + 1] == '{' {
                lemma_arg_bounds(s, pos + 1);
            } else {
                lemma_command_name_end(s, pos + 1);
                let end = command_name_end(s, pos + 1);
                lemma_command_bounds(s, end, s.subrange(pos + 1, end), st.text);
            }
        }
    } else if s[pos] == '$' {
        if pos + 1 < s.len() && s[pos + 1] == '$' {
            lemma_math_close_bounds(s, pos + 2, false, true);
        } else {
            lemma_math_close_bounds(s, pos + 1, false, false);
        }
    }
}

/// The pass from `pos` to the end of the text.
pub open spec fn content_run(s: Seq<char>, pos: int, st: ContentState) -> ContentState
    decreases s.len() - pos,
{
    if pos < 0 || pos >= s.len() {
        st
    } else {
        let o = content_step(s, pos, st);
        proof {
            lemma_step_bounds(s, pos, st);
        }
        content_run(s, o.next, advance(st, o))
    }
}

/// The state in which the pass starts.
pub open spec fn initial_state() -> ContentState {
    ContentState {
        text: Seq::empty(),
        tables: Seq::empty(),
        in_document: false,
        notes: Seq::empty(),
    }
}

/// The text with every run of three or more newlines cut down to two: a
/// newline that follows two others is dropped.
pub open spec fn collapse_newlines(s: Seq<char>) -> Seq<char>
    decreases s.len(),
{
    if s.len() == 0 {
        Seq::empty()
    } else if s.last() == '\n' && s.len() >= 3 && s[s.len() - 2] == '\n' && s[s.len() - 3]
        == '\n' {
        collapse_newlines(s.drop_last())
    } else {
        collapse_newlines(s.drop_last()).push(s.last())
    }
}

/// The text of a document: what the pass emits and behind it the notes,
/// with blank lines collapsed and the whitespace at both ends removed.
pub open spec fn document_text(s: Seq<char>) -> Seq<char> {
    let end = content_run(s, 0, initial_state());
    trimmed(collapse_newlines(end.text + end.notes))
}

/// The tables of a document, in the order of their environments.
pub open spec fn document_tables(s: Seq<char>) -> Seq<TableView> {
    content_run(s, 0, initial_state()).tables
}

/// Re-running the pass on the same document gives the same text and the
/// same tables.
pub proof fn lemma_document_deterministic(a: Seq<char>, b: Seq<char>)
    requires
        a == b,
    ensures
        document_text(a) == document_text(b),
        document_tables(a) == document_tables(b),
{
}

/// The pass keeps the tables well formed: the markdown of each is the
/// rendering of its cells.
pub proof fn lemma_run_keeps_tables_well_formed(s: Seq<char>, pos: int, st: ContentState)
    requires
        forall|i: int| 0 <= i < st.tables.len() ==> table_wf(#[trigger] st.tables[i]),
    ensures
        forall|i: int|
            0 <= i < content_run(s, pos, st).tables.len() ==> table_wf(
                #[trigger] content_run(s, pos, st).tables[i],
            ),
    decreases s.len() - pos,
{
    if 0 <= pos < s.len() {
        let o = content_step(s, pos, st);
        lemma_step_bounds(s, pos, st);
        let next = advance(st, o);
        assert forall|i: int| 0 <= i < next.tables.len() implies table_wf(
            #[trigger] next.tables[i],
        ) by {
            if i < st.tables.len() {
                assert(next.tables[i] == st.tables[i]);
            }
        }
        lemma_run_keeps_tables_well_formed(s, o.next, next);
        assert(content_run(s, pos, st) == content_run(s, o.next, next));
    } else {
        assert(content_run(s, pos, st) == st);
    }
}

/// Every table of a document is on page one, and its markdown is the
/// rendering of its cells.
pub proof fn lemma_document_tables_well_formed(s: Seq<char>)
    ensures
        forall|i: int|
            0 <= i < document_tables(s).len() ==> table_wf(#[trigger] document_tables(s)[i]),
{
    lemma_run_keeps_tables_well_formed(s, 0, initial_state());
}

fn emit_footnote(chars: &Vec<char>, pos: usize, out: &mut Vec<char>, notes: &mut Vec<char>) -> (next:
    usize)
    requires
        pos <= chars.len(),
    ensures
        final(out)@ == old(out)@ + footnote_outcome(chars@, pos as int, old(out)@).text,
        final(notes)@ == old(notes)@ + footnote_outcome(chars@, pos as int, old(out)@).note,
        next == footnote_outcome(chars@, pos as int, old(out)@).next,
        pos <= next <= chars.len(),
{
    let ghost before = out@;
    let ghost held = notes@;
    if at_arg(chars, pos) {
        let (arg, next) = read_arg(chars, pos);
        let note = inline_content(&arg);
        let first = utf8_len_mod(out, 1000);
        push_str(out, " [^");
        push_decimal(out, first as u128);
        push_str(out, "]");
        assert(out@ == before + footnote_mark(before));
        push_str(notes, "\n\n[^");
        push_decimal(notes, first as u128);
        push_str(notes, "]: ");
        push_chars(notes, &note);
        push_str(notes, "\n\n");
        assert(notes@ == held + ("\n\n[^"@ + decimal(footnote_number(before)) + "]: "@
            + inline_text(arg@) + "\n\n"@));
        next
    } else {
        assert(out@ == before + Seq::<char>::empty());
        assert(notes@ == held + Seq::<char>::empty());
        pos
    }
}

fn emit_environment(env: &Vec<char>, content: &Vec<char>, out: &mut Vec<char>)
    ensures
        final(out)@ == old(out)@ + (environment_text(env@, content@) + "\n"@),
{
    let ghost before = out@;
    if chars_eq(env, "itemize") || chars_eq(env, "enumerate") || chars_eq(env, "description") {
        let lines = list_lines(content, env);
        push_chars(out, &lines);
    } else if chars_eq(env, "verbatim") || chars_eq(env, "Verbatim") || chars_eq(env, "obeylines") {
        push_chars(out, content);
    } else {
        let text = inline_content(content);
        push_chars(out, &text);
    }
    push_str(out, "\n");
    assert(out@ == before + (environment_text(env@, content@) + "\n"@));
}

fn emit_begin(
    chars: &Vec<char>,
    pos: usize,
    out: &mut Vec<char>,
    tables: &mut Vec<Table>,
    in_document: &mut bool,
) -> (next: usize)
    requires
        pos <= chars.len(),
    ensures
        ({
            let o = begin_outcome(chars@, pos as int);
            &&& final(out)@ == old(out)@ + o.text
            &&& tables_view(final(tables)@) == (match o.table {
                Some(cells) => tables_view(old(tables)@).push(table_of(cells)),
                None => tables_view(old(tables)@),
            })
            &&& *final(in_document) == (*old(in_document) || o.enters_document)
            &&& o.note.len() == 0
            &&& next == o.next
        }),
        pos <= next <= chars.len(),
{
    let ghost before = out@;
    proof {
        lemma_begin_bounds(chars@, pos as int);
    }
    if at_arg(chars, pos) {
        let close = scan_to(chars, pos + 1, '}');
        let env = slice_of(chars, pos + 1, close);
        let body = step_past(chars, close);
        if chars_eq(&env, "document") {
            *in_document = true;
            assert(out@ == before + Seq::<char>::empty());
            body
        } else if chars_eq(&env, "tabular") {
            let start = pass_setting(chars, pass_bracket(chars, body));
            let (content, next) = read_environment(chars, start, &env);
            match parse_table(&content) {
                Some((markdown, table)) => {
                    push_chars(out, &markdown);
                    push_str(out, "\n");
                    assert(out@ == before + (markdown@ + "\n"@));
                    let ghost held = tables_view(tables@);
                    tables.push(table);
                    assert(tables_view(tables@) =~= held.push(table_of(tabular_cells(content@))));
                },
                None => {
                    assert(out@ == before + Seq::<char>::empty());
                },
            }
            next
        } else {
            let (content, next) = read_environment(chars, body, &env);
            emit_environment(&env, &content, out);
            next
        }
    } else {
        assert(out@ == before + Seq::<char>::empty());
        pos
    }
}

fn emit_command(
    chars: &Vec<char>,
    pos: usize,
    name: &Vec<char>,
    out: &mut Vec<char>,
    tables: &mut Vec<Table>,
    in_document: &mut bool,
    notes: &mut Vec<char>,
) -> (next: usize)
    requires
        pos <= chars.len(),
    ensures
        ({
            let o = command_outcome(chars@, pos as int, name@, old(out)@);
            let before = ContentState {
                text: old(out)@,
                tables: tables_view(old(tables)@),
                in_document: *old(in_document),
                notes: old(notes)@,
            };
            let after = ContentState {
                text: final(out)@,
                tables: tables_view(final(tables)@),
                in_document: *final(in_document),
                notes: final(notes)@,
            };
            after == advance(before, o) && next == o.next
        }),
        pos <= next <= chars.len(),
{
    let ghost before = out@;
    let ghost held = notes@;
    assert(held + Seq::<char>::empty() == held);
    match classify(name) {
        CommandKind::Begin => emit_begin(chars, pos, out, tables, in_document),
        CommandKind::Footnote => emit_footnote(chars, pos, out, notes),
        _ => emit_text(chars, pos, name, INLINE_DEPTH, out),
    }
}

fn emit_step(
    chars: &Vec<char>,
    pos: usize,
    out: &mut Vec<char>,
    tables: &mut Vec<Table>,
    in_document: &mut bool,
    notes: &mut Vec<char>,
) -> (next: usize)
    requires
        pos < chars.len(),
    ensures
        ({
            let before = ContentState {
                text: old(out)@,
                tables: tables_view(old(tables)@),
                in_document: *old(in_document),
                notes: old(notes)@,
            };
            let o = content_step(chars@, pos as int, before);
            let after = ContentState {
                text: final(out)@,
                tables: tables_view(final(tables)@),
                in_document: *final(in_document),
                notes: final(notes)@,
            };
            after == advance(before, o) && next == o.next
        }),
        pos < next <= chars.len(),
{
    let ghost before = out@;
    assert(notes@ + Seq::<char>::empty() == notes@);
    let c = chars[pos];
    if c == '\\' {
        if pos + 1 >= chars.len() {
            out.push(c);
            assert(out@ == before + seq!['\\']);
            pos + 1
        } else if chars[pos + 1] == '{' {
            emit_wrapped(chars, pos + 1, Markup::Plain, INLINE_DEPTH, out)
        } else {
            let end = scan_command_name(chars, pos + 1);
            let name = slice_of(chars, pos + 1, end);
            emit_command(chars, end, &name, out, tables, in_document, notes)
        }
    } else if c == '$' {
        emit_math(chars, pos + 1, out)
    } else if *in_document {
        out.push(c);
        assert(out@ == before + seq![c]);
        pos + 1
    } else {
        assert(out@ == before + Seq::<char>::empty());
        pos + 1
    }
}

/// Cuts every run of three or more newlines down to two.
pub fn collapse_blank_lines(text: &Vec<char>) -> (r: Vec<char>)
    ensures
        r@ == collapse_newlines(text@),
{
    let mut r: Vec<char> = Vec::new();
    let mut i: usize = 0;
    assert(text@.take(0) =~= Seq::<char>::empty());
    while i < text.len()
        invariant
            i <= text.len(),
            r@ == collapse_newlines(text@.take(i as int)),
        decreases text.len() - i,
    {
        let c = text[i];
        proof {
            let cur = text@.take(i + 1);
            assert(cur.drop_last() == text@.take(i as int));
            assert(cur.last() == c);
        }
        if !(c == '\n' && i >= 2 && text[i - 1] == '\n' && text[i - 2] == '\n') {
            r.push(c);
        }
        i += 1;
    }
    assert(text@.take(text.len() as int) == text@);
    r
}

/// Reads the body of a document: its text and its tables.
pub fn read_document(chars: &Vec<char>) -> (r: (Vec<char>, Vec<Table>))
    ensures
        r.0@ == document_text(chars@),
        tables_view(r.1@) == document_tables(chars@),
{
    let mut out: Vec<char> = Vec::new();
    let mut tables: Vec<Table> = Vec::new();
    let mut in_document = false;
    let mut notes: Vec<char> = Vec::new();
    let mut i: usize = 0;
    assert(tables_view(tables@) =~= initial_state().tables);
    while i < chars.len()
        invariant
            i <= chars.len(),
            content_run(
                chars@,
                i as int,
                ContentState {
                    text: out@,
                    tables: tables_view(tables@),
                    in_document,
                    notes: notes@,
                },
            ) == content_run(chars@, 0, initial_state()),
        decreases chars.len() - i,
    {
        i = emit_step(chars, i, &mut out, &mut tables, &mut in_document, &mut notes);
    }
    push_chars(&mut out, &notes);
    let collapsed = collapse_blank_lines(&out);
    (trim(&collapsed), tables)
}

} // verus!
