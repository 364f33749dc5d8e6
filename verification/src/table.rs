//! Printing: lines as they are, tables in boxes.

use vstd::prelude::*;

use crate::report::{cells, Output, Shown};
use crate::text::texts;

verus! {

/// What `tabled` makes of records in a box with rounded corners, the first of
/// them as the header.
pub uninterp spec fn boxed_table(records: Seq<Seq<Seq<char>>>) -> Seq<char>;

/// `tabled::builder::Builder::from_iter` and `build`, then
/// `tabled::Table::with(tabled::settings::Style::rounded())`, displayed. How
/// cells are measured and drawn is up to `tabled`, so the result is only named:
/// it depends on the records alone.
#[verifier::external_body]
fn draw_table(records: Vec<Vec<String>>) -> (r: String)
    ensures
        r@ == boxed_table(cells(records@)),
{
    let mut table = tabled::builder::Builder::from_iter(records).build();
    table.with(tabled::settings::Style::rounded());
    table.to_string()
}

/// What is printed, piece by piece, each on lines of its own: a table's heading
/// comes first, unless it is empty.
pub open spec fn pieces(shown: Shown) -> Seq<Seq<char>> {
    match shown {
        Shown::Lines(lines) => lines,
        Shown::Table { heading, columns, rows } => {
            let body = seq![boxed_table(seq![columns] + rows)];
            if heading.len() == 0 {
                body
            } else {
                seq![heading] + body
            }
        },
    }
}

/// The header and the rows of a table as records.
pub fn table_records(columns: Vec<String>, rows: Vec<Vec<String>>) -> (r: Vec<Vec<String>>)
    ensures
        cells(r@) == seq![texts(columns@)] + cells(rows@),
{
    let ghost body = cells(rows@);
    let mut records: Vec<Vec<String>> = vec![columns];
    let mut tail = rows;
    records.append(&mut tail);
    assert(records@ =~= seq![columns] + rows@);
    assert(cells(records@) =~= seq![texts(columns@)] + body);
    records
}

/// A table's heading, unless it is empty, and its body.
pub fn table_pieces(heading: String, body: String) -> (r: Vec<String>)
    ensures
        texts(r@) == if heading@.len() == 0 {
            seq![body@]
        } else {
            seq![heading@, body@]
        },
{
    let mut out: Vec<String> = Vec::new();
    if heading.as_str().unicode_len() > 0 {
        out.push(heading);
        out.push(body);
        assert(texts(out@) =~= seq![heading@, body@]);
    } else {
        out.push(body);
        assert(texts(out@) =~= seq![body@]);
    }
    out
}

/// What is printed, piece by piece.
pub fn printed(output: Output) -> (r: Vec<String>)
    ensures
        texts(r@) == pieces(output@),
{
    match output {
        Output::Lines(lines) => lines,
        Output::Table { heading, columns, rows } => {
            let body = draw_table(table_records(columns, rows));
            assert(seq![heading@] + seq![body@] =~= seq![heading@, body@]);
            table_pieces(heading, body)
        },
    }
}

/// Lines are printed one by one as they are. Of a table, the box is printed last,
/// drawn from the columns and then the rows; in front of it stands the heading,
/// unless that is empty.
pub proof fn pieces_are_lines_or_a_box(shown: Shown)
    ensures
        match shown {
            Shown::Lines(lines) => pieces(shown) == lines,
            Shown::Table { heading, columns, rows } => {
                &&& pieces(shown).last() == boxed_table(seq![columns] + rows)
                &&& heading.len() == 0 ==> pieces(shown).len() == 1
                &&& heading.len() > 0 ==> pieces(shown).len() == 2 && pieces(shown)[0] == heading
            },
        },
{
}

} // verus!
