use todosh::error::StoreError;
use todosh::rows::{records_from_rows, rows_from_records};
use todosh::todo::Todo;

fn table(rows: &[&[&str]]) -> Vec<Vec<String>> {
    rows.iter().map(|r| r.iter().map(|f| f.to_string()).collect()).collect()
}

#[test]
fn rows_begin_with_the_header() {
    let records = vec![Todo::new(1, "a"), Todo { id: 2, task: "b".to_string(), completed: true }];
    assert_eq!(
        rows_from_records(&records),
        table(&[&["ID", "TASK", "COMPLETED"], &["1", "a", "false"], &["2", "b", "true"]])
    );
}

#[test]
fn no_tasks_still_give_the_header() {
    assert_eq!(rows_from_records(&Vec::new()), table(&[&["ID", "TASK", "COMPLETED"]]));
}

#[test]
fn header_alone_is_the_empty_list() {
    assert_eq!(records_from_rows(&table(&[&["ID", "TASK", "COMPLETED"]])), Ok(Vec::new()));
}

#[test]
fn no_rows_are_the_empty_list() {
    assert_eq!(records_from_rows(&Vec::new()), Ok(Vec::new()));
}

#[test]
fn rows_are_read_in_order() {
    let rows = table(&[&["ID", "TASK", "COMPLETED"], &["1", "a", "true"], &["2", "b", "false"]]);
    assert_eq!(
        records_from_rows(&rows),
        Ok(vec![Todo { id: 1, task: "a".to_string(), completed: true }, Todo::new(2, "b")])
    );
}

#[test]
fn ids_are_read_as_they_stand() {
    let rows = table(&[&["ID", "TASK", "COMPLETED"], &["5", "a", "false"], &["05", "b", "false"]]);
    assert_eq!(records_from_rows(&rows), Ok(vec![Todo::new(5, "a"), Todo::new(5, "b")]));
}

#[test]
fn rows_round_trip() {
    let records = vec![
        Todo::new(1, "plain"),
        Todo { id: 2, task: "with, comma".to_string(), completed: true },
        Todo::new(3, "with \"quotes\""),
        Todo::new(4, ""),
    ];
    assert_eq!(records_from_rows(&rows_from_records(&records)), Ok(records));
}

#[test]
fn a_missing_header_is_malformed() {
    let rows = table(&[&["1", "a", "false"]]);
    assert_eq!(records_from_rows(&rows), Err(StoreError::MalformedRow));
}

#[test]
fn a_header_in_other_letters_is_malformed() {
    let rows = table(&[&["id", "task", "completed"], &["1", "a", "false"]]);
    assert_eq!(records_from_rows(&rows), Err(StoreError::MalformedRow));
}

#[test]
fn a_second_header_is_malformed() {
    let rows = table(&[&["ID", "TASK", "COMPLETED"], &["ID", "TASK", "COMPLETED"]]);
    assert_eq!(records_from_rows(&rows), Err(StoreError::MalformedRow));
}

#[test]
fn a_bad_row_fails_the_whole_table() {
    let rows = table(&[&["ID", "TASK", "COMPLETED"], &["1", "a", "false"], &["two", "b", "false"]]);
    assert_eq!(records_from_rows(&rows), Err(StoreError::MalformedRow));
    let rows = table(&[&["ID", "TASK", "COMPLETED"], &["1", "a", "maybe"], &["2", "b", "false"]]);
    assert_eq!(records_from_rows(&rows), Err(StoreError::MalformedRow));
    let rows = table(&[&["ID", "TASK", "COMPLETED"], &["1", "a"]]);
    assert_eq!(records_from_rows(&rows), Err(StoreError::MalformedRow));
    let rows = table(&[&["ID", "TASK", "COMPLETED"], &["0", "a", "false"]]);
    assert_eq!(records_from_rows(&rows), Err(StoreError::MalformedRow));
}
