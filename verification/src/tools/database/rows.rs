//! The text form of SQL query results.
use vstd::prelude::*;
use vstd::string::*;

use crate::text::{join_strings, joined};

verus! {

/// One column of a result row: its name and its value as text (`None`
/// when the value could not be read as text).
pub type Cell = (String, Option<String>);

/// `name: value`, with `???` for a value that could not be read.
pub open spec fn cell_text(cell: Cell) -> Seq<char> {
    cell.0@ + ": "@ + match cell.1 {
        Some(value) => value@,
        None => "???"@,
    }
}

/// The cells of a row, separated by `, `.
pub open spec fn row_text(row: Seq<Cell>) -> Seq<char> {
    joined(row.map_values(|c: Cell| cell_text(c)), ", "@)
}

/// The rows, one per line.
pub open spec fn rows_text(rows: Seq<Vec<Cell>>) -> Seq<char> {
    joined(rows.map_values(|r: Vec<Cell>| row_text(r@)), "\n"@)
}

/// The text of one row.
pub fn format_row(row: &Vec<Cell>) -> (text: String)
    ensures
        text@ == row_text(row@),
{
    let mut cells: Vec<String> = Vec::new();
    let mut i: usize = 0;
    while i < row.len()
        invariant
            i <= row@.len(),
            cells@.map_values(|c: String| c@) == row@.take(i as int).map_values(
                |c: Cell| cell_text(c),
            ),
        decreases row.len() - i,
    {
        let ghost before = cells@.map_values(|c: String| c@);
        let mut text = row[i].0.clone();
        text.append(": ");
        match &row[i].1 {
            Some(value) => text.append(value.as_str()),
            None => text.append("???"),
        }
        cells.push(text);
        assert(row@.take(i + 1).map_values(|c: Cell| cell_text(c)) =~= row@.take(
            i as int,
        ).map_values(|c: Cell| cell_text(c)).push(cell_text(row@[i as int])));
        assert(cells@.map_values(|c: String| c@) =~= before.push(cell_text(row@[i as int])));
        i = i + 1;
    }
    assert(row@.take(row@.len() as int) =~= row@);
    join_strings(&cells, ", ")
}

/// The text of all rows, one per line.
pub fn format_rows(rows: &Vec<Vec<Cell>>) -> (text: String)
    ensures
        text@ == rows_text(rows@),
{
    let mut lines: Vec<String> = Vec::new();
    let mut i: usize = 0;
    while i < rows.len()
        invariant
            i <= rows@.len(),
            lines@.map_values(|l: String| l@) == rows@.take(i as int).map_values(
                |r: Vec<Cell>| row_text(r@),
            ),
        decreases rows.len() - i,
    {
        let ghost before = lines@.map_values(|l: String| l@);
        let line = format_row(&rows[i]);
        lines.push(line);
        assert(rows@.take(i + 1).map_values(|r: Vec<Cell>| row_text(r@)) =~= rows@.take(
            i as int,
        ).map_values(|r: Vec<Cell>| row_text(r@)).push(row_text(rows@[i as int]@)));
        assert(lines@.map_values(|l: String| l@) =~= before.push(row_text(rows@[i as int]@)));
        i = i + 1;
    }
    assert(rows@.take(rows@.len() as int) =~= rows@);
    join_strings(&lines, "\n")
}

} // verus!
