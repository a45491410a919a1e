//! The operations on the table's text.
//!
//! Each one reads the whole text, changes the list in memory and answers
//! with the new list and with what is to be written: nothing, a piece to put
//! at the end, or a whole new text. Reading and writing the file itself is
//! left to the caller.

use vstd::prelude::*;
use crate::codec::{csv_rows, decode_rows, encode_rows, lemma_rows_text_concat, rows_text};
use crate::error::StoreError;
use crate::render::{render_table, table_cells, table_text};
use crate::rows::{records_from_rows, records_of, rows_from_records, rows_of};
use crate::store::{
    complete, completed, create, created, delete, deleted, holds, holds_open, removed_task, update,
    update_changes, updated,
};
use crate::todo::{fields_of, header_row, Todo, TodoView};

verus! {

/// What is to be done with the file after an operation.
#[derive(Debug, Clone, PartialEq, Eq)]
pub enum Persist {
    /// Nothing: the table is as it was.
    Keep,
    /// These bytes are put at the end of the file.
    Append(Vec<u8>),
    /// The file is emptied and these bytes are written.
    Rewrite(Vec<u8>),
}

/// `Persist` as a mathematical value.
pub enum PersistView {
    Keep,
    Append(Seq<u8>),
    Rewrite(Seq<u8>),
}

impl View for Persist {
    type V = PersistView;

    open spec fn view(&self) -> PersistView {
        match self {
            Persist::Keep => PersistView::Keep,
            Persist::Append(bytes) => PersistView::Append(bytes@),
            Persist::Rewrite(bytes) => PersistView::Rewrite(bytes@),
        }
    }
}

/// What an operation leaves behind.
#[derive(Debug, Clone, PartialEq, Eq)]
pub struct Outcome {
    /// The list after the operation.
    pub records: Vec<Todo>,
    /// What is to be written.
    pub persist: Persist,
    /// The description of the task that was removed, after a removal.
    pub removed: Option<String>,
}

/// `Outcome` as a mathematical value.
pub struct OutcomeView {
    pub records: Seq<TodoView>,
    pub persist: PersistView,
    pub removed: Option<Seq<char>>,
}

impl View for Outcome {
    type V = OutcomeView;

    open spec fn view(&self) -> OutcomeView {
        OutcomeView {
            records: self.records.deep_view(),
            persist: self.persist@,
            removed: match self.removed {
                Some(task) => Some(task@),
                None => None,
            },
        }
    }
}

/// Whether an operation's answer is the one that was to be given.
pub open spec fn agrees(r: Result<Outcome, StoreError>, expected: Result<OutcomeView, StoreError>) -> bool {
    match expected {
        Ok(outcome) => r is Ok && r.unwrap()@ == outcome,
        Err(e) => r == Err::<Outcome, StoreError>(e),
    }
}

/// The list that a text holds: `StoreUnreadable` where the text cannot be
/// read as rows, `MalformedRow` where the rows are no table.
pub open spec fn loaded(data: Seq<u8>) -> Result<Seq<TodoView>, StoreError> {
    match csv_rows(data) {
        Some(rows) => records_of(rows),
        None => Err(StoreError::StoreUnreadable),
    }
}

/// The whole text of a table that holds these tasks: the header's line, then
/// one line for each task.
pub open spec fn store_text(records: Seq<TodoView>) -> Option<Seq<u8>> {
    rows_text(rows_of(records))
}

/// The answer of an operation that changed nothing.
pub open spec fn unchanged(records: Seq<TodoView>) -> Result<OutcomeView, StoreError> {
    Ok(OutcomeView { records, persist: PersistView::Keep, removed: None })
}

/// The answer of an operation after which the whole text is written anew.
pub open spec fn rewritten(records: Seq<TodoView>, removed: Option<Seq<char>>) -> Result<
    OutcomeView,
    StoreError,
> {
    match store_text(records) {
        Some(text) => Ok(OutcomeView { records, persist: PersistView::Rewrite(text), removed }),
        None => Err(StoreError::StoreUnwritable),
    }
}

/// The rows that are put at the end of a text for a new task: the task's
/// row, after the header where the text held no row at all.
pub open spec fn appended_rows(data: Seq<u8>, todo: TodoView) -> Seq<Seq<Seq<char>>> {
    if csv_rows(data) == Some(Seq::<Seq<Seq<char>>>::empty()) {
        rows_of(seq![todo])
    } else {
        seq![fields_of(todo)]
    }
}

/// What creating a task answers.
pub open spec fn create_outcome(data: Seq<u8>, input: Seq<char>) -> Result<OutcomeView, StoreError> {
    match loaded(data) {
        Ok(s) => match rows_text(appended_rows(data, created(s, input).last())) {
            Some(text) => Ok(
                OutcomeView {
                    records: created(s, input),
                    persist: PersistView::Append(text),
                    removed: None,
                },
            ),
            None => Err(StoreError::StoreUnwritable),
        },
        Err(e) => Err(e),
    }
}

/// What completing a task answers.
pub open spec fn complete_outcome(data: Seq<u8>, id: nat) -> Result<OutcomeView, StoreError> {
    match loaded(data) {
        Ok(s) => if holds_open(s, id) {
            rewritten(completed(s, id), None)
        } else {
            unchanged(s)
        },
        Err(e) => Err(e),
    }
}

/// What describing a task anew answers.
pub open spec fn update_outcome(data: Seq<u8>, id: nat, input: Seq<char>) -> Result<
    OutcomeView,
    StoreError,
> {
    match loaded(data) {
        Ok(s) => if !(1 <= id <= s.len()) {
            Err(StoreError::NotFound)
        } else if update_changes(s, id, input) {
            rewritten(updated(s, id, input), None)
        } else {
            unchanged(s)
        },
        Err(e) => Err(e),
    }
}

/// What removing a task answers.
pub open spec fn delete_outcome(data: Seq<u8>, id: nat) -> Result<OutcomeView, StoreError> {
    match loaded(data) {
        Ok(s) => if holds(s, id) {
            rewritten(deleted(s, id), Some(removed_task(s, id)))
        } else {
            Err(StoreError::NotFound)
        },
        Err(e) => Err(e),
    }
}

/// Reads the list from the table's text, in the rows' order. A text without
/// any row, and one with the header alone, hold the empty list.
pub fn load(data: &[u8]) -> (r: Result<Vec<Todo>, StoreError>)
    ensures
        match loaded(data@) {
            Ok(s) => r is Ok && r.unwrap().deep_view() == s,
            Err(e) => r == Err::<Vec<Todo>, StoreError>(e),
        },
        r matches Ok(records) ==> records.len() < usize::MAX,
{
    match decode_rows(data) {
        Ok(rows) => records_from_rows(&rows),
        Err(e) => Err(e),
    }
}

/// Reads the list from the table's text and draws it as a table for the
/// terminal.
pub fn list_todos(data: &[u8]) -> (r: Result<String, StoreError>)
    ensures
        match loaded(data@) {
            Ok(s) => r is Ok && r.unwrap()@ == table_text(table_cells(s)),
            Err(e) => r == Err::<String, StoreError>(e),
        },
{
    match load(data) {
        Ok(records) => Ok(render_table(&records)),
        Err(e) => Err(e),
    }
}

/// The whole text of a table that holds these tasks. The header is written
/// also where there is no task.
pub fn write_to_database(records: &Vec<Todo>) -> (r: Result<Vec<u8>, StoreError>)
    ensures
        match store_text(records.deep_view()) {
            Some(text) => r is Ok && r.unwrap()@ == text,
            None => r == Err::<Vec<u8>, StoreError>(StoreError::StoreUnwritable),
        },
{
    let rows = rows_from_records(records);
    encode_rows(&rows)
}

/// Answers with a list that is to be written anew as a whole.
fn rewrite(records: Vec<Todo>, removed: Option<String>) -> (r: Result<Outcome, StoreError>)
    ensures
        agrees(
            r,
            rewritten(
                records.deep_view(),
                match removed {
                    Some(task) => Some(task@),
                    None => None,
                },
            ),
        ),
{
    match write_to_database(&records) {
        Ok(text) => Ok(Outcome { records, persist: Persist::Rewrite(text), removed }),
        Err(e) => Err(e),
    }
}

/// Creates a task from a description and answers with the bytes to put at
/// the end of the file: the new task's line, after the header's line where
/// the text held no row yet. The rows that are there are not written again.
pub fn create_todo(data: &[u8], input: &str) -> (r: Result<Outcome, StoreError>)
    ensures
        agrees(r, create_outcome(data@, input@)),
{
    let rows = match decode_rows(data) {
        Ok(rows) => rows,
        Err(e) => {
            return Err(e);
        },
    };
    let mut records = match records_from_rows(&rows) {
        Ok(records) => records,
        Err(e) => {
            return Err(e);
        },
    };
    let ghost before = records.deep_view();
    create(&mut records, input);
    let ghost todo = created(before, input@).last();
    let last: usize = records.len() - 1;
    assert(records[last as int]@ == records.deep_view()[last as int]);
    let mut lines: Vec<Vec<String>> = Vec::new();
    if rows.len() == 0 {
        lines.push(header_row());
        assert(rows.deep_view() =~= Seq::<Seq<Seq<char>>>::empty());
    } else {
        assert(rows.deep_view().len() > 0);
    }
    lines.push(records[last].to_fields());
    assert(lines.deep_view() =~= appended_rows(data@, todo));
    match encode_rows(&lines) {
        Ok(text) => Ok(Outcome { records, persist: Persist::Append(text), removed: None }),
        Err(e) => Err(e),
    }
}

/// Marks the task of this id as done. Where the list holds such a task that
/// was not done, the whole text is to be written anew; else nothing is.
pub fn complete_todo(data: &[u8], id: usize) -> (r: Result<Outcome, StoreError>)
    ensures
        agrees(r, complete_outcome(data@, id as nat)),
{
    let mut records = match load(data) {
        Ok(records) => records,
        Err(e) => {
            return Err(e);
        },
    };
    if complete(&mut records, id) {
        rewrite(records, None)
    } else {
        Ok(Outcome { records, persist: Persist::Keep, removed: None })
    }
}

/// Gives the task of this id a new description. An id outside `1..=len` is
/// refused with `NotFound`. A blank description, or one equal to the present
/// one, changes nothing and nothing is to be written; else the whole text is
/// to be written anew.
pub fn update_todo(data: &[u8], id: usize, input: &str) -> (r: Result<Outcome, StoreError>)
    ensures
        agrees(r, update_outcome(data@, id as nat, input@)),
{
    let mut records = match load(data) {
        Ok(records) => records,
        Err(e) => {
            return Err(e);
        },
    };
    match update(&mut records, id, input) {
        Ok(true) => rewrite(records, None),
        Ok(false) => Ok(Outcome { records, persist: Persist::Keep, removed: None }),
        Err(e) => Err(e),
    }
}

/// Removes the task of this id, renumbers the tasks after it and answers
/// with the whole new text and the description that was removed. A list
/// without such a task is refused with `NotFound`.
pub fn delete_todo(data: &[u8], id: usize) -> (r: Result<Outcome, StoreError>)
    ensures
        agrees(r, delete_outcome(data@, id as nat)),
{
    let mut records = match load(data) {
        Ok(records) => records,
        Err(e) => {
            return Err(e);
        },
    };
    match delete(&mut records, id) {
        Ok(task) => rewrite(records, Some(task)),
        Err(e) => Err(e),
    }
}

/// Putting a new task's line at the end of a table's text gives the text
/// that writing the longer list anew would give.
pub proof fn lemma_append_is_rewrite(s: Seq<TodoView>, input: Seq<char>)
    ensures
        store_text(created(s, input)) == match (
            store_text(s),
            rows_text(seq![fields_of(created(s, input).last())]),
        ) {
            (Some(text), Some(line)) => Some(text + line),
            _ => None,
        },
{
    let new = created(s, input);
    assert(rows_of(new) =~= rows_of(s) + seq![fields_of(new.last())]);
    lemma_rows_text_concat(rows_of(s), seq![fields_of(new.last())]);
}

} // verus!
