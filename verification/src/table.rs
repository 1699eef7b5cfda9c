//! Tables as text, drawn by `comfy_table`.

use vstd::prelude::*;
use vstd::string::*;

verus! {

/// The borders of a table that has lines round it and under its header
/// only: what `comfy_table` calls `ASCII_BORDERS_ONLY_CONDENSED`.
pub const CONDENSED_BORDERS: &'static str = "||--+==+     --++++";

/// The borders of a table with lines round every cell: what `comfy_table`
/// calls `ASCII_FULL`, and gives to a table that asks for no other.
pub const FULL_BORDERS: &'static str = "||--+==+|-+||++++++";

/// The most characters that a cell may have. A table measures its cells in
/// columns of the terminal, at most three to a character, and counts no
/// further than 65535.
pub const MAX_CELL: usize = 21845;

/// No cell of `row` has more characters than a table can measure.
pub open spec fn narrow(row: Seq<Seq<char>>) -> bool {
    forall|i: int| 0 <= i < row.len() ==> (#[trigger] row[i]).len() <= MAX_CELL
}

/// A table with this header and these rows can be drawn: it has a column,
/// and no cell has more characters than a table can measure.
pub open spec fn drawable(header: Seq<Seq<char>>, rows: Seq<Seq<Seq<char>>>) -> bool {
    &&& header.len() > 0
    &&& narrow(header)
    &&& forall|i: int| 0 <= i < rows.len() ==> narrow(#[trigger] rows[i])
}

/// The text of the table with the borders `preset`, the header and the
/// rows given, as `comfy_table` draws it.
pub uninterp spec fn table_text(
    preset: Seq<char>,
    header: Seq<Seq<char>>,
    rows: Seq<Seq<Seq<char>>>,
) -> Seq<char>;

/// Draws a table with `comfy_table`: a new `Table` is given the borders
/// `preset` by `load_preset`, the header by `set_header` and the rows by
/// `add_rows`, and is turned into text by its `Display`.
///
/// The text depends on nothing but the arguments: the table arranges its
/// columns by their contents alone, and the crate is built without its
/// support for terminals. Cells that are no wider than it can measure are
/// never split, which is where the drawing could fail.
#[verifier::external_body]
fn draw(preset: &str, header: &Vec<String>, rows: &Vec<Vec<String>>) -> (text: String)
    requires
        drawable(header.deep_view(), rows.deep_view()),
    ensures
        text@ == table_text(preset@, header.deep_view(), rows.deep_view()),
{
    let mut table = comfy_table::Table::new();
    table.load_preset(preset).set_header(header).add_rows(rows);
    table.to_string()
}

/// Whether no cell of `row` has more characters than a table can measure.
pub fn is_narrow(row: &Vec<String>) -> (fits: bool)
    ensures
        fits == narrow(row.deep_view()),
{
    let mut i: usize = 0;
    while i < row.len()
        invariant
            i <= row.len(),
            forall|j: int| 0 <= j < i ==> (#[trigger] row.deep_view()[j]).len() <= MAX_CELL,
        decreases row.len() - i,
    {
        assert(row.deep_view()[i as int] == row[i as int]@);
        if row[i].as_str().unicode_len() > MAX_CELL {
            return false;
        }
        i += 1;
    }
    true
}

/// Whether a table with this header and these rows can be drawn.
pub fn is_drawable(header: &Vec<String>, rows: &Vec<Vec<String>>) -> (fits: bool)
    ensures
        fits == drawable(header.deep_view(), rows.deep_view()),
{
    if header.len() == 0 || !is_narrow(header) {
        return false;
    }
    let mut i: usize = 0;
    while i < rows.len()
        invariant
            i <= rows.len(),
            forall|j: int| 0 <= j < i ==> narrow(#[trigger] rows.deep_view()[j]),
        decreases rows.len() - i,
    {
        assert(rows.deep_view()[i as int] == rows[i as int].deep_view());
        if !is_narrow(&rows[i]) {
            return false;
        }
        i += 1;
    }
    true
}

/// The text of the table with the borders `preset`, the header and the
/// rows given, or `None` where such a table cannot be drawn.
pub fn draw_table(preset: &str, header: &Vec<String>, rows: &Vec<Vec<String>>) -> (text: Option<
    String,
>)
    ensures
        text.is_some() == drawable(header.deep_view(), rows.deep_view()),
        text matches Some(drawn) ==> drawn@ == table_text(
            preset@,
            header.deep_view(),
            rows.deep_view(),
        ),
{
    if is_drawable(header, rows) {
        Some(draw(preset, header, rows))
    } else {
        None
    }
}

} // verus!
