//! The `tabular` environment: cells parted by `&`, rows by a double backslash.

use vstd::prelude::*;
use crate::latex::inline::{inline_content, inline_text};
use crate::scan::{lemma_run_end_bounds, run_end, scan_run, CharClass};
use crate::text::{chars_eq, slice_of, trim, trimmed};
use crate::types::{render_markdown, table_markdown, Table};
use crate::unicode::white_space;

verus! {

/// Where the reading of a table stands: the rows read, the cells of the row
/// being read, the text of the cell being read.
pub struct TabularState {
    pub cells: Seq<Seq<Seq<char>>>,
    pub row: Seq<Seq<char>>,
    pub cell: Seq<char>,
}

/// The text of a finished cell: trimmed, with its escaped symbols resolved.
pub open spec fn cell_text(cell: Seq<char>) -> Seq<char> {
    inline_text(trimmed(cell))
}

/// The position at which the next row starts behind a row separator at
/// `pos`: whitespace is passed over, and so is each word `hline`; another
/// word of letters that starts with `h` is passed over too and ends the scan.
pub open spec fn row_start(s: Seq<char>, pos: int) -> int
    decreases s.len() - pos,
{
    if pos < 0 || pos >= s.len() {
        s.len() as int
    } else if s[pos] == 'h' {
        let end = run_end(s, pos, CharClass::Letter);
        proof {
            lemma_run_end_bounds(s, pos, CharClass::Letter);
            reveal_strlit("hline");
            assert("hline"@.len() == 5);
            assert(s.subrange(pos, end).len() == end - pos);
        }
        if s.subrange(pos, end) == "hline"@ {
            row_start(s, end)
        } else {
            end
        }
    } else if white_space(s[pos]) {
        row_start(s, pos + 1)
    } else {
        pos
    }
}

/// The next row starts between the separator and the end of the text.
pub proof fn lemma_row_start_bounds(s: Seq<char>, pos: int)
    requires
        0 <= pos <= s.len(),
    ensures
        pos <= row_start(s, pos) <= s.len(),
    decreases s.len() - pos,
{
    if pos < s.len() {
        if s[pos] == 'h' {
            let end = run_end(s, pos, CharClass::Letter);
            lemma_run_end_bounds(s, pos, CharClass::Letter);
            reveal_strlit("hline");
            assert("hline"@.len() == 5);
            assert(s.subrange(pos, end).len() == end - pos);
            if s.subrange(pos, end) == "hline"@ {
                lemma_row_start_bounds(s, end);
            }
        } else if white_space(s[pos]) {
            lemma_row_start_bounds(s, pos + 1);
        }
    }
}

/// Reads a table from `pos` on. `&` ends a cell, a double backslash ends a
/// cell and its row; any other backslash takes the character behind it into
/// the cell, so that an escaped `&` ends no cell; whitespace at the start of
/// a cell is dropped, every other character is text of the cell.
pub open spec fn tabular_run(s: Seq<char>, pos: int, st: TabularState) -> TabularState
    decreases s.len() - pos,
{
    if pos < 0 || pos >= s.len() {
        st
    } else if s[pos] == '&' {
        tabular_run(
            s,
            pos + 1,
            TabularState { row: st.row.push(cell_text(st.cell)), cell: Seq::empty(), ..st },
        )
    } else if s[pos] == '\\' && pos + 1 < s.len() && s[pos + 1] == '\\' {
        proof {
            lemma_row_start_bounds(s, pos + 2);
        }
        tabular_run(
            s,
            row_start(s, pos + 2),
            TabularState {
                cells: st.cells.push(st.row.push(cell_text(st.cell))),
                row: Seq::empty(),
                cell: Seq::empty(),
            },
        )
    } else if s[pos] == '\\' && pos + 1 < s.len() {
        tabular_run(
            s,
            pos + 2,
            TabularState { cell: st.cell.push(s[pos]).push(s[pos + 1]), ..st },
        )
    } else if s[pos] == '\\' || !white_space(s[pos]) || st.cell.len() > 0 {
        tabular_run(s, pos + 1, TabularState { cell: st.cell.push(s[pos]), ..st })
    } else {
        tabular_run(s, pos + 1, st)
    }
}

/// The rows with what was left unfinished at the end of the text: a cell
/// that has any text ends its row, a row that has any cell is kept.
pub open spec fn finished_rows(st: TabularState) -> Seq<Seq<Seq<char>>> {
    let row = if st.cell.len() > 0 {
        st.row.push(cell_text(st.cell))
    } else {
        st.row
    };
    if row.len() > 0 {
        st.cells.push(row)
    } else {
        st.cells
    }
}

/// The cell matrix of the content of a `tabular` environment.
pub open spec fn tabular_cells(s: Seq<char>) -> Seq<Seq<Seq<char>>> {
    finished_rows(
        tabular_run(
            s,
            0,
            TabularState { cells: Seq::empty(), row: Seq::empty(), cell: Seq::empty() },
        ),
    )
}

fn finish_cell(cell: &Vec<char>) -> (r: Vec<char>)
    ensures
        r@ == cell_text(cell@),
{
    let t = trim(cell);
    inline_content(&t)
}

fn scan_row_start(chars: &Vec<char>, pos: usize) -> (next: usize)
    requires
        pos <= chars.len(),
    ensures
        next == row_start(chars@, pos as int),
        pos <= next <= chars.len(),
{
    let mut i: usize = pos;
    while i < chars.len()
        invariant
            pos <= i <= chars.len(),
            row_start(chars@, i as int) == row_start(chars@, pos as int),
        decreases chars.len() - i,
    {
        let c = chars[i];
        if c == 'h' {
            let end = scan_run(chars, i, CharClass::Letter);
            let word = slice_of(chars, i, end);
            if chars_eq(&word, "hline") {
                proof {
                    reveal_strlit("hline");
                    assert("hline"@.len() == 5);
                    assert(word@.len() == end - i);
                }
                i = end;
            } else {
                return end;
            }
        } else if c.is_whitespace() {
            i += 1;
        } else {
            return i;
        }
    }
    i
}

/// Reads the cells of the content of a `tabular` environment.
pub fn read_cells(content: &Vec<char>) -> (cells: Vec<Vec<Vec<char>>>)
    ensures
        cells.deep_view() == tabular_cells(content@),
{
    let mut cells: Vec<Vec<Vec<char>>> = Vec::new();
    let mut row: Vec<Vec<char>> = Vec::new();
    let mut cell: Vec<char> = Vec::new();
    let mut i: usize = 0;
    let ghost start = TabularState { cells: Seq::empty(), row: Seq::empty(), cell: Seq::empty() };
    assert(cells.deep_view() =~~= start.cells);
    assert(row.deep_view() =~~= start.row);
    while i < content.len()
        invariant
            i <= content.len(),
            tabular_run(
                content@,
                i as int,
                TabularState { cells: cells.deep_view(), row: row.deep_view(), cell: cell@ },
            ) == tabular_run(content@, 0, start),
        decreases content.len() - i,
    {
        let c = content[i];
        if c == '&' {
            let ghost before = row.deep_view();
            let text = finish_cell(&cell);
            row.push(text);
            assert(row.deep_view() =~~= before.push(cell_text(cell@)));
            cell = Vec::new();
            i += 1;
        } else if c == '\\' && i + 1 < content.len() && content[i + 1] == '\\' {
            let ghost row_before = row.deep_view();
            let ghost cells_before = cells.deep_view();
            let text = finish_cell(&cell);
            row.push(text);
            assert(row.deep_view() =~~= row_before.push(cell_text(cell@)));
            cells.push(row);
            assert(cells.deep_view() =~~= cells_before.push(row_before.push(cell_text(cell@))));
            row = Vec::new();
            assert(row.deep_view() =~~= Seq::<Seq<char>>::empty());
            cell = Vec::new();
            i = scan_row_start(content, i + 2);
        } else if c == '\\' && i + 1 < content.len() {
            cell.push(c);
            cell.push(content[i + 1]);
            i += 2;
        } else if c == '\\' || !c.is_whitespace() || cell.len() > 0 {
            cell.push(c);
            i += 1;
        } else {
            i += 1;
        }
    }
    let ghost st = TabularState { cells: cells.deep_view(), row: row.deep_view(), cell: cell@ };
    if cell.len() > 0 {
        let ghost before = row.deep_view();
        let text = finish_cell(&cell);
        row.push(text);
        assert(row.deep_view() =~~= before.push(cell_text(cell@)));
    }
    if row.len() > 0 {
        let ghost before = cells.deep_view();
        let ghost r = row.deep_view();
        cells.push(row);
        assert(cells.deep_view() =~~= before.push(r));
    }
    assert(cells.deep_view() == finished_rows(st));
    cells
}

/// Parses the content of a `tabular` environment: its markdown rendering and
/// the table, or nothing where the content holds no cell.
pub fn parse_table(content: &Vec<char>) -> (r: Option<(Vec<char>, Table)>)
    ensures
        match r {
            None => tabular_cells(content@).len() == 0,
            Some((markdown, table)) => {
                &&& tabular_cells(content@).len() > 0
                &&& markdown@ == table_markdown(tabular_cells(content@))
                &&& table@.cells == tabular_cells(content@)
                &&& table@.markdown == table_markdown(tabular_cells(content@))
                &&& table@.page_number == 1
            },
        },
{
    let cells = read_cells(content);
    if cells.len() > 0 {
        let markdown = render_markdown(&cells);
        let table = Table::from_cells(&cells, 1);
        Some((markdown, table))
    } else {
        None
    }
}

} // verus!
