//! The table as rows of fields: a header row, then one row for each task.

use vstd::prelude::*;
use crate::error::StoreError;
use crate::text::{is_trimmed, lemma_trimmed_is_trimmed};
use crate::todo::{
    fields_of, header_fields, header_row, is_header_row, lemma_fields_round_trip, stored,
    todo_of_fields, valid_id, Todo, TodoView,
};

verus! {

/// The rows of a table that holds these tasks: the header, then each task's
/// fields.
pub open spec fn rows_of(records: Seq<TodoView>) -> Seq<Seq<Seq<char>>> {
    Seq::new(
        records.len() + 1,
        |i: int|
            if i == 0 {
                header_fields()
            } else {
                fields_of(records[i - 1])
            },
    )
}

/// Whether rows are a table: the first is the header and every other one
/// stands for a task. No rows at all are a table too, one never written.
pub open spec fn well_formed(rows: Seq<Seq<Seq<char>>>) -> bool {
    rows.len() > 0 ==> rows[0] == header_fields() && forall|i: int|
        1 <= i < rows.len() ==> todo_of_fields(#[trigger] rows[i]) is Some
}

/// The tasks that a table's rows stand for, in the rows' order; or
/// `MalformedRow` where the rows are no table.
pub open spec fn records_of(rows: Seq<Seq<Seq<char>>>) -> Result<Seq<TodoView>, StoreError> {
    if !well_formed(rows) {
        Err(StoreError::MalformedRow)
    } else if rows.len() == 0 {
        Ok(Seq::empty())
    } else {
        Ok(Seq::new((rows.len() - 1) as nat, |i: int| todo_of_fields(rows[i + 1]).unwrap()))
    }
}

/// Whether every task of the list has an id that can stand in the table.
pub open spec fn all_valid(records: Seq<TodoView>) -> bool {
    forall|i: int| 0 <= i < records.len() ==> valid_id((#[trigger] records[i]).id)
}

/// Whether no description in the list begins or ends with white space.
pub open spec fn all_trimmed(records: Seq<TodoView>) -> bool {
    forall|i: int| 0 <= i < records.len() ==> is_trimmed((#[trigger] records[i]).task)
}

/// The list as it stands in the table: every description trimmed.
pub open spec fn all_stored(records: Seq<TodoView>) -> Seq<TodoView> {
    Seq::new(records.len(), |i: int| stored(records[i]))
}

/// Writing tasks as rows and reading the rows gives the same tasks in the
/// same order, whatever their descriptions hold, but for the white space
/// around a description, which is cut off when it is written. A header alone
/// stands for the empty list, and so do no rows at all.
pub proof fn lemma_rows_round_trip(records: Seq<TodoView>)
    requires
        all_valid(records),
    ensures
        well_formed(rows_of(records)),
        records_of(rows_of(records)) == Ok::<Seq<TodoView>, StoreError>(all_stored(records)),
        all_trimmed(records) ==> records_of(rows_of(records)) == Ok::<Seq<TodoView>, StoreError>(
            records,
        ),
        all_trimmed(all_stored(records)),
        rows_of(all_stored(records)) == rows_of(records),
        records_of(seq![header_fields()]) == Ok::<Seq<TodoView>, StoreError>(Seq::empty()),
        records_of(Seq::empty()) == Ok::<Seq<TodoView>, StoreError>(Seq::empty()),
{
    let rows = rows_of(records);
    assert forall|i: int| 1 <= i < rows.len() implies todo_of_fields(#[trigger] rows[i]) == Some(
        stored(records[i - 1]),
    ) by {
        lemma_fields_round_trip(records[i - 1]);
    }
    assert(records_of(rows).unwrap() =~= all_stored(records));
    if all_trimmed(records) {
        assert forall|i: int| 0 <= i < records.len() implies stored(records[i]) == records[i] by {
            lemma_fields_round_trip(records[i]);
        }
        assert(all_stored(records) =~= records);
    }
    assert forall|i: int| 0 <= i < records.len() implies is_trimmed(
        (#[trigger] all_stored(records)[i]).task,
    ) by {
        lemma_trimmed_is_trimmed(records[i].task);
    }
    assert forall|i: int| 0 <= i < records.len() implies fields_of(all_stored(records)[i])
        == fields_of(records[i]) by {
        lemma_fields_round_trip(records[i]);
    }
    assert(rows_of(all_stored(records)) =~= rows);
    let bare = seq![header_fields()];
    assert(well_formed(bare));
    assert(records_of(bare).unwrap() =~= Seq::<TodoView>::empty());
}

/// Tasks read from a table can be written again: their ids can stand in a
/// table.
pub proof fn lemma_read_then_written(rows: Seq<Seq<Seq<char>>>)
    requires
        well_formed(rows),
    ensures
        all_valid(records_of(rows).unwrap()),
        well_formed(rows_of(records_of(rows).unwrap())),
{
    lemma_rows_round_trip(records_of(rows).unwrap());
}

/// The table's rows for these tasks: the header first, also for no tasks.
pub fn rows_from_records(records: &Vec<Todo>) -> (rows: Vec<Vec<String>>)
    ensures
        rows.deep_view() == rows_of(records.deep_view()),
{
    let ghost s = records.deep_view();
    let mut rows: Vec<Vec<String>> = Vec::new();
    rows.push(header_row());
    let mut i: usize = 0;
    while i < records.len()
        invariant
            i <= records.len(),
            s == records.deep_view(),
            rows.len() == i + 1,
            forall|j: int| 0 <= j <= i ==> (#[trigger] rows[j]).deep_view() == rows_of(s)[j],
        decreases records.len() - i,
    {
        let fields = records[i].to_fields();
        assert(records[i as int]@ == s[i as int]);
        rows.push(fields);
        i += 1;
    }
    assert(rows.deep_view() =~= rows_of(s));
    rows
}

/// Reads the tasks from a table's rows. The first row must be the header
/// and every other row a task, else the answer is `MalformedRow`. No rows at
/// all give the empty list.
pub fn records_from_rows(rows: &Vec<Vec<String>>) -> (r: Result<Vec<Todo>, StoreError>)
    ensures
        match records_of(rows.deep_view()) {
            Ok(s) => r is Ok && r.unwrap().deep_view() == s,
            Err(e) => r == Err::<Vec<Todo>, StoreError>(e),
        },
        r matches Ok(records) ==> records.len() < usize::MAX && (rows.len() > 0 ==> records.len()
            == rows.len() - 1),
{
    let ghost table = rows.deep_view();
    let mut records: Vec<Todo> = Vec::new();
    if rows.len() == 0 {
        assert(records.deep_view() =~= Seq::<TodoView>::empty());
        return Ok(records);
    }
    assert(table[0] == rows[0].deep_view());
    if !is_header_row(&rows[0]) {
        return Err(StoreError::MalformedRow);
    }
    let mut i: usize = 1;
    while i < rows.len()
        invariant
            1 <= i <= rows.len(),
            table == rows.deep_view(),
            table[0] == header_fields(),
            records.len() == i - 1,
            forall|j: int| 1 <= j < i ==> todo_of_fields(#[trigger] table[j]) is Some,
            forall|j: int| 0 <= j < i - 1 ==> (#[trigger] records[j])@ == todo_of_fields(table[j + 1]).unwrap(),
        decreases rows.len() - i,
    {
        assert(table[i as int] == rows[i as int].deep_view());
        match Todo::from_fields(&rows[i]) {
            Some(todo) => {
                records.push(todo);
            },
            None => {
                assert(!well_formed(table));
                return Err(StoreError::MalformedRow);
            },
        }
        i += 1;
    }
    assert(well_formed(table));
    assert(records.deep_view() =~= records_of(table).unwrap());
    Ok(records)
}

} // verus!
