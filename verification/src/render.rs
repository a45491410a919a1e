//! The list drawn as a table for the terminal, by the `tabled` crate.

use vstd::prelude::*;
use crate::todo::{fields_of, Todo, TodoView};

verus! {

/// The text that the `tabled` crate draws for rows of cells, in its modern
/// style: the first row as the table's head, a frame around every cell.
pub uninterp spec fn table_text(cells: Seq<Seq<Seq<char>>>) -> Seq<char>;

/// Hands the rows to a `tabled::builder::Builder`, builds the `Table`, sets
/// `Style::modern()` on it and takes its text. Nothing is claimed of the text
/// but that it depends on the cells alone.
#[verifier::external_body]
fn draw_table(cells: &Vec<Vec<String>>) -> (text: String)
    ensures
        text@ == table_text(cells.deep_view()),
{
    let mut table = tabled::builder::Builder::from_iter(cells).build();
    table.with(tabled::settings::Style::modern());
    table.to_string()
}

/// The names over the table's three columns.
pub open spec fn table_head() -> Seq<Seq<char>> {
    seq!["id"@, "task"@, "completed"@]
}

/// The cells of the table: the head, then for each task its id, its
/// description and `true` or `false`.
pub open spec fn table_cells(records: Seq<TodoView>) -> Seq<Seq<Seq<char>>> {
    Seq::new(
        records.len() + 1,
        |i: int|
            if i == 0 {
                table_head()
            } else {
                fields_of(records[i - 1])
            },
    )
}

/// Draws the list as a table with the columns `id`, `task` and `completed`,
/// one line of cells for each task, in the list's order.
pub fn render_table(records: &Vec<Todo>) -> (text: String)
    ensures
        text@ == table_text(table_cells(records.deep_view())),
{
    let ghost s = records.deep_view();
    let mut cells: Vec<Vec<String>> = Vec::new();
    let mut head: Vec<String> = Vec::new();
    head.push(String::from_str("id"));
    head.push(String::from_str("task"));
    head.push(String::from_str("completed"));
    assert(head.deep_view() =~= table_head());
    cells.push(head);
    let mut i: usize = 0;
    while i < records.len()
        invariant
            i <= records.len(),
            s == records.deep_view(),
            cells.len() == i + 1,
            forall|j: int| 0 <= j <= i ==> (#[trigger] cells[j]).deep_view() == table_cells(s)[j],
        decreases records.len() - i,
    {
        let fields = records[i].to_fields();
        assert(records[i as int]@ == s[i as int]);
        cells.push(fields);
        i += 1;
    }
    assert(cells.deep_view() =~= table_cells(s));
    draw_table(&cells)
}

} // verus!
