//! The commands of a document: their kinds, their arguments, and what those
//! of them emit that read no text inside their arguments.

use vstd::prelude::*;
use crate::scan::{
    brace_close, find_char, lemma_brace_close_bounds, lemma_find_char, past, scan_brace_close,
    scan_to, step_past,
};
use crate::text::{chars_eq, push_chars, push_str, slice_of};
use crate::unicode::{alphabetic, numeric};

verus! {

/// The fixed markers put round the argument of a command.
#[derive(Clone, Copy, Debug)]
pub enum Markup {
    Emphasis,
    Strong,
    Code,
    Strikeout,
    Superscript,
    Subscript,
    Math,
    Url,
    Plain,
    Section,
    Subsection,
    Subsubsection,
    Paragraph,
    Subparagraph,
    Image,
}

/// The symbols that a command can stand for.
#[derive(Clone, Copy, Debug)]
pub enum Symbol {
    Ellipsis,
    Less,
    Greater,
    Backslash,
}

/// What kind of command a name is.
#[derive(Clone, Copy, Debug)]
pub enum CommandKind {
    /// `\begin`: opens an environment.
    Begin,
    /// `\end`: closes an environment that was read as part of the body.
    End,
    /// A command of the preamble, skipped with its arguments.
    Preamble,
    /// A formatting command, skipped with its argument.
    Setting,
    /// A command whose argument is put between markers.
    Wrapped(Markup),
    /// The same behind an optional argument in brackets.
    Bracketed(Markup),
    /// A command that stands for a symbol.
    Named(Symbol),
    /// An escaped special character.
    Escape,
    /// A double backslash.
    LineBreak,
    Rule,
    Footnote,
    Href,
    Cite,
    Verb,
    /// Any other command.
    Unknown,
}

/// The kind of the command of a given name.
pub open spec fn command_kind(name: Seq<char>) -> CommandKind {
    if name == "begin"@ {
        CommandKind::Begin
    } else if name == "end"@ {
        CommandKind::End
    } else if name == "title"@ || name == "author"@ || name == "date"@ || name == "maketitle"@
        || name == "usepackage"@ || name == "documentclass"@ || name == "newcommand"@ || name
        == "renewcommand"@ || name == "chapter"@ || name == "appendix"@ {
        CommandKind::Preamble
    } else if name == "section"@ {
        CommandKind::Bracketed(Markup::Section)
    } else if name == "subsection"@ {
        CommandKind::Bracketed(Markup::Subsection)
    } else if name == "subsubsection"@ {
        CommandKind::Bracketed(Markup::Subsubsection)
    } else if name == "paragraph"@ {
        CommandKind::Bracketed(Markup::Paragraph)
    } else if name == "subparagraph"@ {
        CommandKind::Bracketed(Markup::Subparagraph)
    } else if name == "footnote"@ {
        CommandKind::Footnote
    } else if name == "href"@ {
        CommandKind::Href
    } else if name == "url"@ {
        CommandKind::Wrapped(Markup::Url)
    } else if name == "includegraphics"@ {
        CommandKind::Bracketed(Markup::Image)
    } else if name == "cite"@ {
        CommandKind::Cite
    } else if name == "emph"@ || name == "textit"@ {
        CommandKind::Wrapped(Markup::Emphasis)
    } else if name == "textbf"@ || name == "textbold"@ {
        CommandKind::Wrapped(Markup::Strong)
    } else if name == "texttt"@ || name == "ttfamily"@ || name == "textmonospace"@ {
        CommandKind::Wrapped(Markup::Code)
    } else if name == "sout"@ {
        CommandKind::Wrapped(Markup::Strikeout)
    } else if name == "textsuperscript"@ {
        CommandKind::Wrapped(Markup::Superscript)
    } else if name == "textsubscript"@ {
        CommandKind::Wrapped(Markup::Subscript)
    } else if name == "verb"@ {
        CommandKind::Verb
    } else if name == "ldots"@ || name == "textellipsis"@ {
        CommandKind::Named(Symbol::Ellipsis)
    } else if name == "textless"@ {
        CommandKind::Named(Symbol::Less)
    } else if name == "textgreater"@ {
        CommandKind::Named(Symbol::Greater)
    } else if name == "textbackslash"@ {
        CommandKind::Named(Symbol::Backslash)
    } else if name == "&"@ || name == "#"@ || name == "_"@ || name == "{"@ || name == "}"@
        || name == "%"@ {
        CommandKind::Escape
    } else if name == "ensuremath"@ {
        CommandKind::Wrapped(Markup::Math)
    } else if name == "\\"@ {
        CommandKind::LineBreak
    } else if name == "rule"@ {
        CommandKind::Rule
    } else if name == "doublespacing"@ || name == "setcounter"@ || name == "enumi"@ || name
        == "enumii"@ || name == "enumiii"@ || name == "enumiv"@ || name == "VerbatimFootnotes"@ {
        CommandKind::Setting
    } else {
        CommandKind::Unknown
    }
}

/// Finds the kind of the command of a given name.
pub fn classify(name: &Vec<char>) -> (kind: CommandKind)
    ensures
        kind == command_kind(name@),
{
    if chars_eq(name, "begin") {
        CommandKind::Begin
    } else if chars_eq(name, "end") {
        CommandKind::End
    } else if chars_eq(name, "title") || chars_eq(name, "author") || chars_eq(name, "date")
        || chars_eq(name, "maketitle") || chars_eq(name, "usepackage") || chars_eq(
        name,
        "documentclass",
    ) || chars_eq(name, "newcommand") || chars_eq(name, "renewcommand") || chars_eq(
        name,
        "chapter",
    ) || chars_eq(name, "appendix") {
        CommandKind::Preamble
    } else if chars_eq(name, "section") {
        CommandKind::Bracketed(Markup::Section)
    } else if chars_eq(name, "subsection") {
        CommandKind::Bracketed(Markup::Subsection)
    } else if chars_eq(name, "subsubsection") {
        CommandKind::Bracketed(Markup::Subsubsection)
    } else if chars_eq(name, "paragraph") {
        CommandKind::Bracketed(Markup::Paragraph)
    } else if chars_eq(name, "subparagraph") {
        CommandKind::Bracketed(Markup::Subparagraph)
    } else if chars_eq(name, "footnote") {
        CommandKind::Footnote
    } else if chars_eq(name, "href") {
        CommandKind::Href
    } else if chars_eq(name, "url") {
        CommandKind::Wrapped(Markup::Url)
    } else if chars_eq(name, "includegraphics") {
        CommandKind::Bracketed(Markup::Image)
    } else if chars_eq(name, "cite") {
        CommandKind::Cite
    } else if chars_eq(name, "emph") || chars_eq(name, "textit") {
        CommandKind::Wrapped(Markup::Emphasis)
    } else if chars_eq(name, "textbf") || chars_eq(name, "textbold") {
        CommandKind::Wrapped(Markup::Strong)
    } else if chars_eq(name, "texttt") || chars_eq(name, "ttfamily") || chars_eq(
        name,
        "textmonospace",
    ) {
        CommandKind::Wrapped(Markup::Code)
    } else if chars_eq(name, "sout") {
        CommandKind::Wrapped(Markup::Strikeout)
    } else if chars_eq(name, "textsuperscript") {
        CommandKind::Wrapped(Markup::Superscript)
    } else if chars_eq(name, "textsubscript") {
        CommandKind::Wrapped(Markup::Subscript)
    } else if chars_eq(name, "verb") {
        CommandKind::Verb
    } else if chars_eq(name, "ldots") || chars_eq(name, "textellipsis") {
        CommandKind::Named(Symbol::Ellipsis)
    } else if chars_eq(name, "textless") {
        CommandKind::Named(Symbol::Less)
    } else if chars_eq(name, "textgreater") {
        CommandKind::Named(Symbol::Greater)
    } else if chars_eq(name, "textbackslash") {
        CommandKind::Named(Symbol::Backslash)
    } else if chars_eq(name, "&") || chars_eq(name, "#") || chars_eq(name, "_") || chars_eq(
        name,
        "{",
    ) || chars_eq(name, "}") || chars_eq(name, "%") {
        CommandKind::Escape
    } else if chars_eq(name, "ensuremath") {
        CommandKind::Wrapped(Markup::Math)
    } else if chars_eq(name, "\\") {
        CommandKind::LineBreak
    } else if chars_eq(name, "rule") {
        CommandKind::Rule
    } else if chars_eq(name, "doublespacing") || chars_eq(name, "setcounter") || chars_eq(
        name,
        "enumi",
    ) || chars_eq(name, "enumii") || chars_eq(name, "enumiii") || chars_eq(name, "enumiv")
        || chars_eq(name, "VerbatimFootnotes") {
        CommandKind::Setting
    } else {
        CommandKind::Unknown
    }
}

/// The marker put before the argument.
pub open spec fn markup_open(m: Markup) -> Seq<char> {
    match m {
        Markup::Emphasis => "*"@,
        Markup::Strong => "**"@,
        Markup::Code => "`"@,
        Markup::Strikeout => "~~"@,
        Markup::Superscript => "^"@,
        Markup::Subscript => "_"@,
        Markup::Math => "$"@,
        Markup::Url => ""@,
        Markup::Plain => ""@,
        Markup::Section => "\n# "@,
        Markup::Subsection => "## "@,
        Markup::Subsubsection => "### "@,
        Markup::Paragraph => "#### "@,
        Markup::Subparagraph => "##### "@,
        Markup::Image => "[image: "@,
    }
}

/// The marker put behind the argument.
pub open spec fn markup_close(m: Markup) -> Seq<char> {
    match m {
        Markup::Emphasis => "*"@,
        Markup::Strong => "**"@,
        Markup::Code => "`"@,
        Markup::Strikeout => "~~"@,
        Markup::Superscript => ""@,
        Markup::Subscript => ""@,
        Markup::Math => "$"@,
        Markup::Url => ""@,
        Markup::Plain => ""@,
        Markup::Section => "\n\n"@,
        Markup::Subsection => "\n\n"@,
        Markup::Subsubsection => "\n\n"@,
        Markup::Paragraph => "\n\n"@,
        Markup::Subparagraph => "\n\n"@,
        Markup::Image => "]"@,
    }
}

/// Whether the argument is read as inline content, or taken as it stands.
pub open spec fn markup_inline(m: Markup) -> bool {
    match m {
        Markup::Emphasis => true,
        Markup::Strong => true,
        Markup::Strikeout => true,
        Markup::Plain => true,
        Markup::Section => true,
        Markup::Subsection => true,
        Markup::Subsubsection => true,
        Markup::Paragraph => true,
        Markup::Subparagraph => true,
        _ => false,
    }
}

/// The text of a symbol.
pub open spec fn symbol_text(sym: Symbol) -> Seq<char> {
    match sym {
        Symbol::Ellipsis => "..."@,
        Symbol::Less => "<"@,
        Symbol::Greater => ">"@,
        Symbol::Backslash => "\\"@,
    }
}

/// The marker put before the argument.
pub fn opening(m: Markup) -> (r: &'static str)
    ensures
        r@ == markup_open(m),
{
    match m {
        Markup::Emphasis => "*",
        Markup::Strong => "**",
        Markup::Code => "`",
        Markup::Strikeout => "~~",
        Markup::Superscript => "^",
        Markup::Subscript => "_",
        Markup::Math => "$",
        Markup::Url => "",
        Markup::Plain => "",
        Markup::Section => "\n# ",
        Markup::Subsection => "## ",
        Markup::Subsubsection => "### ",
        Markup::Paragraph => "#### ",
        Markup::Subparagraph => "##### ",
        Markup::Image => "[image: ",
    }
}

/// The marker put behind the argument.
pub fn closing(m: Markup) -> (r: &'static str)
    ensures
        r@ == markup_close(m),
{
    match m {
        Markup::Emphasis => "*",
        Markup::Strong => "**",
        Markup::Code => "`",
        Markup::Strikeout => "~~",
        Markup::Superscript => "",
        Markup::Subscript => "",
        Markup::Math => "$",
        Markup::Url => "",
        Markup::Plain => "",
        Markup::Section => "\n\n",
        Markup::Subsection => "\n\n",
        Markup::Subsubsection => "\n\n",
        Markup::Paragraph => "\n\n",
        Markup::Subparagraph => "\n\n",
        Markup::Image => "]",
    }
}

/// Whether the argument is read as inline content.
pub fn reads_inline(m: Markup) -> (b: bool)
    ensures
        b == markup_inline(m),
{
    match m {
        Markup::Emphasis => true,
        Markup::Strong => true,
        Markup::Strikeout => true,
        Markup::Plain => true,
        Markup::Section => true,
        Markup::Subsection => true,
        Markup::Subsubsection => true,
        Markup::Paragraph => true,
        Markup::Subparagraph => true,
        _ => false,
    }
}

/// The text of a symbol.
pub fn symbol_str(sym: Symbol) -> (r: &'static str)
    ensures
        r@ == symbol_text(sym),
{
    match sym {
        Symbol::Ellipsis => "...",
        Symbol::Less => "<",
        Symbol::Greater => ">",
        Symbol::Backslash => "\\",
    }
}

/// What one command emits and where reading goes on.
pub struct Step {
    pub text: Seq<char>,
    pub next: int,
}

/// Whether an argument in braces starts at `pos`.
pub open spec fn has_arg(s: Seq<char>, pos: int) -> bool {
    0 <= pos < s.len() && s[pos] == '{'
}

/// The raw text of the argument in braces that starts at `pos`.
pub open spec fn arg_text(s: Seq<char>, pos: int) -> Seq<char> {
    s.subrange(pos + 1, brace_close(s, pos + 1, 1))
}

/// The position behind the argument in braces that starts at `pos`.
pub open spec fn arg_next(s: Seq<char>, pos: int) -> int {
    past(s, brace_close(s, pos + 1, 1))
}

/// The position behind an optional argument in brackets at `pos`.
pub open spec fn skip_bracket(s: Seq<char>, pos: int) -> int {
    if 0 <= pos < s.len() && s[pos] == '[' {
        past(s, find_char(s, pos + 1, ']'))
    } else {
        pos
    }
}

/// The position behind an empty group at `pos`: an opening brace is passed
/// over, and a closing brace that follows it at once.
pub open spec fn skip_empty_group(s: Seq<char>, pos: int) -> int {
    if has_arg(s, pos) {
        if pos + 1 < s.len() && s[pos + 1] == '}' {
            pos + 2
        } else {
            pos + 1
        }
    } else {
        pos
    }
}

/// A command of the preamble: its argument in braces and an argument in
/// brackets behind it are passed over.
pub open spec fn preamble_next(s: Seq<char>, pos: int) -> int {
    if has_arg(s, pos) {
        skip_bracket(s, arg_next(s, pos))
    } else {
        skip_bracket(s, pos)
    }
}

/// A formatting command: its argument in braces is passed over.
pub open spec fn setting_next(s: Seq<char>, pos: int) -> int {
    if has_arg(s, pos) {
        arg_next(s, pos)
    } else {
        pos
    }
}

/// A rule: up to two arguments in braces are passed over.
pub open spec fn rule_next(s: Seq<char>, pos: int) -> int {
    if has_arg(s, pos) {
        setting_next(s, arg_next(s, pos))
    } else {
        pos
    }
}

/// A citation: the key in brackets, with the pages behind a colon where an
/// optional argument gives any.
pub open spec fn cite_step(s: Seq<char>, pos: int) -> Step {
    if 0 <= pos < s.len() && s[pos] == '[' {
        let close = find_char(s, pos + 1, ']');
        let pages = s.subrange(pos + 1, close);
        let mid = past(s, close);
        if has_arg(s, mid) {
            Step {
                text: if pages.len() == 0 {
                    "["@ + arg_text(s, mid) + "]"@
                } else {
                    "["@ + arg_text(s, mid) + ":"@ + pages + "]"@
                },
                next: arg_next(s, mid),
            }
        } else {
            Step { text: Seq::empty(), next: mid }
        }
    } else if has_arg(s, pos) {
        Step { text: "["@ + arg_text(s, pos) + "]"@, next: arg_next(s, pos) }
    } else {
        Step { text: Seq::empty(), next: pos }
    }
}

/// The position behind an argument in braces is inside the text.
pub proof fn lemma_arg_bounds(s: Seq<char>, pos: int)
    requires
        has_arg(s, pos),
    ensures
        pos + 1 <= brace_close(s, pos + 1, 1) <= s.len(),
        pos < arg_next(s, pos) <= s.len(),
{
    lemma_brace_close_bounds(s, pos + 1, 1);
}

/// The position behind an optional argument in brackets is inside the text.
pub proof fn lemma_skip_bracket_bounds(s: Seq<char>, pos: int)
    requires
        0 <= pos <= s.len(),
    ensures
        pos <= skip_bracket(s, pos) <= s.len(),
{
    if pos < s.len() {
        lemma_find_char(s, pos + 1, ']');
    }
}

/// The position behind the arguments of a rule is inside the text.
pub proof fn lemma_rule_bounds(s: Seq<char>, pos: int)
    requires
        0 <= pos <= s.len(),
    ensures
        pos <= rule_next(s, pos) <= s.len(),
{
    if has_arg(s, pos) {
        lemma_arg_bounds(s, pos);
        let mid = arg_next(s, pos);
        if has_arg(s, mid) {
            lemma_arg_bounds(s, mid);
        }
    }
}

/// Reads the argument in braces that starts at `pos`.
pub fn read_arg(chars: &Vec<char>, pos: usize) -> (r: (Vec<char>, usize))
    requires
        has_arg(chars@, pos as int),
    ensures
        r.0@ == arg_text(chars@, pos as int),
        r.1 == arg_next(chars@, pos as int),
        pos < r.1 <= chars.len(),
{
    assert(pos < chars.len());
    let close = scan_brace_close(chars, pos + 1);
    (slice_of(chars, pos + 1, close), step_past(chars, close))
}

/// Whether an argument in braces starts at `pos`.
pub fn at_arg(chars: &Vec<char>, pos: usize) -> (b: bool)
    ensures
        b == has_arg(chars@, pos as int),
{
    pos < chars.len() && chars[pos] == '{'
}

/// Passes over an optional argument in brackets.
pub fn pass_bracket(chars: &Vec<char>, pos: usize) -> (next: usize)
    requires
        pos <= chars.len(),
    ensures
        next == skip_bracket(chars@, pos as int),
        pos <= next <= chars.len(),
{
    if pos < chars.len() && chars[pos] == '[' {
        let close = scan_to(chars, pos + 1, ']');
        step_past(chars, close)
    } else {
        pos
    }
}

/// Passes over an empty group.
pub fn pass_empty_group(chars: &Vec<char>, pos: usize) -> (next: usize)
    requires
        pos <= chars.len(),
    ensures
        next == skip_empty_group(chars@, pos as int),
        pos <= next <= chars.len(),
{
    if at_arg(chars, pos) {
        if pos + 1 < chars.len() && chars[pos + 1] == '}' {
            pos + 2
        } else {
            pos + 1
        }
    } else {
        pos
    }
}

/// Passes over the arguments of a command of the preamble.
pub fn pass_preamble(chars: &Vec<char>, pos: usize) -> (next: usize)
    requires
        pos <= chars.len(),
    ensures
        next == preamble_next(chars@, pos as int),
        pos <= next <= chars.len(),
{
    if at_arg(chars, pos) {
        let (_arg, mid) = read_arg(chars, pos);
        pass_bracket(chars, mid)
    } else {
        pass_bracket(chars, pos)
    }
}

/// Passes over the argument of a formatting command.
pub fn pass_setting(chars: &Vec<char>, pos: usize) -> (next: usize)
    requires
        pos <= chars.len(),
    ensures
        next == setting_next(chars@, pos as int),
        pos <= next <= chars.len(),
{
    if at_arg(chars, pos) {
        let (_arg, next) = read_arg(chars, pos);
        next
    } else {
        pos
    }
}

/// Passes over the arguments of a rule.
pub fn pass_rule(chars: &Vec<char>, pos: usize) -> (next: usize)
    requires
        pos <= chars.len(),
    ensures
        next == rule_next(chars@, pos as int),
        pos <= next <= chars.len(),
{
    if at_arg(chars, pos) {
        let (_arg, mid) = read_arg(chars, pos);
        pass_setting(chars, mid)
    } else {
        pos
    }
}

/// Emits a citation.
pub fn emit_cite(chars: &Vec<char>, pos: usize, out: &mut Vec<char>) -> (next: usize)
    requires
        pos <= chars.len(),
    ensures
        final(out)@ == old(out)@ + cite_step(chars@, pos as int).text,
        next == cite_step(chars@, pos as int).next,
        pos <= next <= chars.len(),
{
    let ghost before = out@;
    if pos < chars.len() && chars[pos] == '[' {
        let close = scan_to(chars, pos + 1, ']');
        let pages = slice_of(chars, pos + 1, close);
        let mid = step_past(chars, close);
        if at_arg(chars, mid) {
            let (key, next) = read_arg(chars, mid);
            push_str(out, "[");
            push_chars(out, &key);
            if pages.len() == 0 {
                push_str(out, "]");
                assert(out@ == before + ("["@ + key@ + "]"@));
            } else {
                push_str(out, ":");
                push_chars(out, &pages);
                push_str(out, "]");
                assert(out@ == before + ("["@ + key@ + ":"@ + pages@ + "]"@));
            }
            next
        } else {
            assert(out@ == before + Seq::<char>::empty());
            mid
        }
    } else if at_arg(chars, pos) {
        let (key, next) = read_arg(chars, pos);
        push_str(out, "[");
        push_chars(out, &key);
        push_str(out, "]");
        assert(out@ == before + ("["@ + key@ + "]"@));
        next
    } else {
        assert(out@ == before + Seq::<char>::empty());
        pos
    }
}

/// Emits the text of a symbol.
pub fn emit_symbol(sym: Symbol, out: &mut Vec<char>)
    ensures
        final(out)@ == old(out)@ + symbol_text(sym),
{
    push_str(out, symbol_str(sym));
}

/// Whether a character can delimit verbatim text: neither a letter nor a
/// number, and no opening brace or bracket.
pub open spec fn is_verb_delimiter(c: char) -> bool {
    !(alphabetic(c) || numeric(c)) && c != '{' && c != '['
}

/// Verbatim text between two occurrences of a delimiter, as inline code.
pub open spec fn verb_step(s: Seq<char>, pos: int) -> Step {
    if 0 <= pos < s.len() && is_verb_delimiter(s[pos]) {
        let close = find_char(s, pos + 1, s[pos]);
        Step { text: "`"@ + s.subrange(pos + 1, close) + "`"@, next: past(s, close) }
    } else {
        Step { text: Seq::empty(), next: pos }
    }
}

/// The index at which math content ends: at the first dollar sign that no
/// backslash escapes and, in display math, that another dollar sign follows;
/// or the length of the text.
pub open spec fn math_close(s: Seq<char>, pos: int, escaped: bool, display: bool) -> int
    decreases s.len() - pos,
{
    if pos < 0 || pos >= s.len() {
        s.len() as int
    } else if escaped {
        math_close(s, pos + 1, false, display)
    } else if s[pos] == '\\' {
        math_close(s, pos + 1, true, display)
    } else if s[pos] == '$' && (!display || (pos + 1 < s.len() && s[pos + 1] == '$')) {
        pos
    } else {
        math_close(s, pos + 1, false, display)
    }
}

/// Math content ends between its start and the end of the text; display
/// math that ends inside the text has its two dollar signs there.
pub proof fn lemma_math_close_bounds(s: Seq<char>, pos: int, escaped: bool, display: bool)
    requires
        0 <= pos <= s.len(),
    ensures
        pos <= math_close(s, pos, escaped, display) <= s.len(),
        display && math_close(s, pos, escaped, display) < s.len() ==> math_close(
            s,
            pos,
            escaped,
            display,
        ) + 2 <= s.len(),
    decreases s.len() - pos,
{
    if pos < s.len() {
        if escaped {
            lemma_math_close_bounds(s, pos + 1, false, display);
        } else if s[pos] == '\\' {
            lemma_math_close_bounds(s, pos + 1, true, display);
        } else if s[pos] == '$' && (!display || (pos + 1 < s.len() && s[pos + 1] == '$')) {
        } else {
            lemma_math_close_bounds(s, pos + 1, false, display);
        }
    }
}

/// Math, with `pos` behind its first dollar sign: the content is kept as it
/// stands, between the same dollar signs that opened it.
pub open spec fn math_step(s: Seq<char>, pos: int) -> Step {
    if 0 <= pos < s.len() && s[pos] == '$' {
        let close = math_close(s, pos + 1, false, true);
        Step {
            text: "$$"@ + s.subrange(pos + 1, close) + "$$"@,
            next: if close < s.len() {
                close + 2
            } else {
                s.len() as int
            },
        }
    } else {
        let close = math_close(s, pos, false, false);
        Step { text: "$"@ + s.subrange(pos, close) + "$"@, next: past(s, close) }
    }
}

/// The position behind the name in braces of an `\end`.
pub open spec fn end_next(s: Seq<char>, pos: int) -> int {
    if has_arg(s, pos) {
        past(s, find_char(s, pos + 1, '}'))
    } else {
        pos
    }
}

/// Emits verbatim text.
pub fn emit_verb(chars: &Vec<char>, pos: usize, out: &mut Vec<char>) -> (next: usize)
    requires
        pos <= chars.len(),
    ensures
        final(out)@ == old(out)@ + verb_step(chars@, pos as int).text,
        next == verb_step(chars@, pos as int).next,
        pos <= next <= chars.len(),
{
    let ghost before = out@;
    if pos < chars.len() && !chars[pos].is_alphanumeric() && chars[pos] != '{' && chars[pos]
        != '[' {
        let close = scan_to(chars, pos + 1, chars[pos]);
        let code = slice_of(chars, pos + 1, close);
        push_str(out, "`");
        push_chars(out, &code);
        push_str(out, "`");
        assert(out@ == before + ("`"@ + code@ + "`"@));
        step_past(chars, close)
    } else {
        assert(out@ == before + Seq::<char>::empty());
        pos
    }
}

/// Scans for the end of math content.
pub fn scan_math_close(chars: &Vec<char>, pos: usize, display: bool) -> (close: usize)
    requires
        pos <= chars.len(),
    ensures
        close == math_close(chars@, pos as int, false, display),
        pos <= close <= chars.len(),
        display && close < chars.len() ==> close + 2 <= chars.len(),
{
    let mut i: usize = pos;
    let mut escaped = false;
    proof {
        lemma_math_close_bounds(chars@, pos as int, false, display);
    }
    while i < chars.len()
        invariant
            pos <= i <= chars.len(),
            math_close(chars@, i as int, escaped, display) == math_close(
                chars@,
                pos as int,
                false,
                display,
            ),
        decreases chars.len() - i,
    {
        let c = chars[i];
        if escaped {
            escaped = false;
        } else if c == '\\' {
            escaped = true;
        } else if c == '$' && (!display || (i + 1 < chars.len() && chars[i + 1] == '$')) {
            return i;
        }
        i += 1;
    }
    i
}

/// Emits math.
pub fn emit_math(chars: &Vec<char>, pos: usize, out: &mut Vec<char>) -> (next: usize)
    requires
        pos <= chars.len(),
    ensures
        final(out)@ == old(out)@ + math_step(chars@, pos as int).text,
        next == math_step(chars@, pos as int).next,
        pos <= next <= chars.len(),
{
    let ghost before = out@;
    if pos < chars.len() && chars[pos] == '$' {
        let close = scan_math_close(chars, pos + 1, true);
        let math = slice_of(chars, pos + 1, close);
        push_str(out, "$$");
        push_chars(out, &math);
        push_str(out, "$$");
        assert(out@ == before + ("$$"@ + math@ + "$$"@));
        if close < chars.len() {
            close + 2
        } else {
            close
        }
    } else {
        let close = scan_math_close(chars, pos, false);
        let math = slice_of(chars, pos, close);
        push_str(out, "$");
        push_chars(out, &math);
        push_str(out, "$");
        assert(out@ == before + ("$"@ + math@ + "$"@));
        step_past(chars, close)
    }
}

/// Passes over the name in braces of an `\end`.
pub fn pass_end(chars: &Vec<char>, pos: usize) -> (next: usize)
    requires
        pos <= chars.len(),
    ensures
        next == end_next(chars@, pos as int),
        pos <= next <= chars.len(),
{
    if at_arg(chars, pos) {
        let close = scan_to(chars, pos + 1, '}');
        step_past(chars, close)
    } else {
        pos
    }
}

} // verus!
