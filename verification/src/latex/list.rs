//! List environments: one line of output for each item.

use vstd::prelude::*;
use crate::scan::{
    find_char, lemma_find_char, lemma_run_end_bounds, past, run_end, scan_run, scan_to, step_past,
    CharClass,
};
use crate::latex::command::{lemma_rule_bounds, pass_rule, rule_next};
use crate::text::{chars_eq, decimal, push_chars, push_decimal, push_str, slice_of, trim, trimmed};

verus! {

/// Where the reading of a list stands: the lines written, the text of the
/// item being read, whether an item was opened, and the number of the item.
pub struct ListState {
    pub out: Seq<char>,
    pub item: Seq<char>,
    pub in_item: bool,
    pub count: nat,
}

/// The marker that starts the line of an item: its number in an `enumerate`
/// list, a dash otherwise. In a `description` list the label has been
/// written already, so that its items get no marker.
pub open spec fn item_marker(list_type: Seq<char>, count: nat) -> Seq<char> {
    if list_type == "enumerate"@ {
        decimal(count) + ". "@
    } else if list_type == "description"@ {
        Seq::empty()
    } else {
        "- "@
    }
}

/// Writes the line of the item being read, if one is open and has any text.
pub open spec fn close_item(st: ListState, list_type: Seq<char>) -> ListState {
    if st.in_item && st.item.len() > 0 {
        ListState {
            out: st.out + item_marker(list_type, st.count) + trimmed(st.item) + "\n"@,
            item: st.item,
            in_item: st.in_item,
            count: st.count + 1,
        }
    } else {
        st
    }
}

/// The state after `\item` was read, with `pos` behind the command: the
/// previous item is closed, a new one is open, and a label in brackets is
/// read; a `description` list writes the label and a colon.
pub open spec fn open_item(s: Seq<char>, pos: int, list_type: Seq<char>, st: ListState) -> ListState {
    let closed = close_item(st, list_type);
    let label = s.subrange(pos + 1, find_char(s, pos + 1, ']'));
    ListState {
        out: if 0 <= pos < s.len() && s[pos] == '[' && list_type == "description"@ {
            closed.out + label + ": "@
        } else {
            closed.out
        },
        item: Seq::empty(),
        in_item: true,
        count: closed.count,
    }
}

/// The position behind `\item` and its label, if it has one.
pub open spec fn open_item_next(s: Seq<char>, pos: int) -> int {
    if 0 <= pos < s.len() && s[pos] == '[' {
        past(s, find_char(s, pos + 1, ']'))
    } else {
        pos
    }
}

/// The state after `\setcounter` was read: the item that was being read is
/// closed, none is open, and the numbering starts again at one.
pub open spec fn restart(list_type: Seq<char>, st: ListState) -> ListState {
    ListState {
        out: close_item(st, list_type).out,
        item: Seq::empty(),
        in_item: false,
        count: 1,
    }
}

/// The position behind `\setcounter` and its arguments in braces, of which
/// it takes up to two.
pub open spec fn restart_next(s: Seq<char>, pos: int) -> int {
    rule_next(s, pos)
}

/// Reads a list from `pos` on. A backslash before an `i` or an `s` starts a
/// command of letters: `\item` opens a new item, `\setcounter` starts the
/// numbering again, any other is text of the item, as is every other
/// character.
pub open spec fn list_run(s: Seq<char>, pos: int, list_type: Seq<char>, st: ListState) -> ListState
    decreases s.len() - pos,
{
    if pos < 0 || pos >= s.len() {
        st
    } else if s[pos] == '\\' && pos + 1 < s.len() && (s[pos + 1] == 'i' || s[pos + 1] == 's') {
        let end = run_end(s, pos + 1, CharClass::Letter);
        proof {
            lemma_run_end_bounds(s, pos + 1, CharClass::Letter);
            if end < s.len() {
                lemma_find_char(s, end + 1, ']');
            }
            lemma_rule_bounds(s, end);
        }
        if s.subrange(pos + 1, end) == "item"@ {
            list_run(s, open_item_next(s, end), list_type, open_item(s, end, list_type, st))
        } else if s.subrange(pos + 1, end) == "setcounter"@ {
            list_run(s, restart_next(s, end), list_type, restart(list_type, st))
        } else {
            list_run(
                s,
                end,
                list_type,
                ListState { item: st.item + s.subrange(pos, end), ..st },
            )
        }
    } else {
        list_run(s, pos + 1, list_type, ListState { item: st.item.push(s[pos]), ..st })
    }
}

/// The text of a list environment: the lines of its items.
pub open spec fn list_text(s: Seq<char>, list_type: Seq<char>) -> Seq<char> {
    close_item(
        list_run(
            s,
            0,
            list_type,
            ListState { out: Seq::empty(), item: Seq::empty(), in_item: false, count: 1 },
        ),
        list_type,
    ).out
}

fn push_item_line(
    out: &mut Vec<char>,
    item: &Vec<char>,
    in_item: bool,
    count: u128,
    list_type: &Vec<char>,
) -> (written: bool)
    ensures
        written == (in_item && item@.len() > 0),
        ({
            let st = ListState { out: old(out)@, item: item@, in_item, count: count as nat };
            final(out)@ == close_item(st, list_type@).out
        }),
{
    if in_item && item.len() > 0 {
        let ghost before = out@;
        if chars_eq(list_type, "enumerate") {
            push_decimal(out, count);
            push_str(out, ". ");
            assert(out@ == before + (decimal(count as nat) + ". "@));
        } else if chars_eq(list_type, "description") {
            assert(out@ == before + Seq::<char>::empty());
        } else {
            push_str(out, "- ");
        }
        let text = trim(item);
        push_chars(out, &text);
        push_str(out, "\n");
        true
    } else {
        false
    }
}

/// Renders the content of a list environment of the given type.
pub fn list_lines(content: &Vec<char>, list_type: &Vec<char>) -> (r: Vec<char>)
    ensures
        r@ == list_text(content@, list_type@),
{
    let mut out: Vec<char> = Vec::new();
    let mut item: Vec<char> = Vec::new();
    let mut in_item = false;
    let mut count: u128 = 1;
    let mut i: usize = 0;
    let ghost start = ListState {
        out: Seq::empty(),
        item: Seq::empty(),
        in_item: false,
        count: 1,
    };
    while i < content.len()
        invariant
            i <= content.len(),
            1 <= count <= i + 1,
            list_run(
                content@,
                i as int,
                list_type@,
                ListState { out: out@, item: item@, in_item, count: count as nat },
            ) == list_run(content@, 0, list_type@, start),
        decreases content.len() - i,
    {
        let c = content[i];
        if c == '\\' && i + 1 < content.len() && (content[i + 1] == 'i' || content[i + 1] == 's') {
            let end = scan_run(content, i + 1, CharClass::Letter);
            let name = slice_of(content, i + 1, end);
            proof {
                lemma_rule_bounds(content@, end as int);
            }
            if chars_eq(&name, "setcounter") {
                proof {
                    reveal_strlit("setcounter");
                    reveal_strlit("item");
                    assert("setcounter"@.len() == 10);
                    assert("item"@.len() == 4);
                }
                push_item_line(&mut out, &item, in_item, count, list_type);
                in_item = false;
                item = Vec::new();
                count = 1;
                i = pass_rule(content, end);
            } else if chars_eq(&name, "item") {
                proof {
                    reveal_strlit("item");
                    if end < content.len() {
                        lemma_find_char(content@, end + 1, ']');
                    }
                }
                let written = push_item_line(&mut out, &item, in_item, count, list_type);
                if written {
                    count += 1;
                }
                in_item = true;
                item = Vec::new();
                if end < content.len() && content[end] == '[' {
                    let close = scan_to(content, end + 1, ']');
                    if chars_eq(list_type, "description") {
                        let label = slice_of(content, end + 1, close);
                        push_chars(&mut out, &label);
                        push_str(&mut out, ": ");
                    }
                    i = step_past(content, close);
                } else {
                    i = end;
                }
            } else {
                let command = slice_of(content, i, end);
                push_chars(&mut item, &command);
                i = end;
            }
        } else {
            item.push(c);
            i += 1;
        }
    }
    push_item_line(&mut out, &item, in_item, count, list_type);
    out
}

} // verus!
