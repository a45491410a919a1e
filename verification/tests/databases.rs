use todosh::database::{
    complete_todo, create_todo, delete_todo, list_todos, load, update_todo, write_to_database, Outcome,
    Persist,
};
use todosh::error::StoreError;
use todosh::todo::Todo;

const ABC: &[u8] = b"ID,TASK,COMPLETED\n1,a,false\n2,b,false\n3,c,false\n";
const AB: &[u8] = b"ID,TASK,COMPLETED\n1,a,false\n2,b,false\n";
const HEADER: &[u8] = b"ID,TASK,COMPLETED\n";

fn abc() -> Vec<Todo> {
    vec![Todo::new(1, "a"), Todo::new(2, "b"), Todo::new(3, "c")]
}

fn done(id: usize, task: &str) -> Todo {
    Todo { id, task: task.to_string(), completed: true }
}

#[test]
fn empty_store_list() {
    assert_eq!(load(HEADER), Ok(Vec::new()));
}

#[test]
fn a_file_never_written_holds_the_empty_list() {
    assert_eq!(load(b""), Ok(Vec::new()));
}

#[test]
fn loads_tasks_in_row_order() {
    assert_eq!(load(ABC), Ok(abc()));
    assert_eq!(
        load(b"ID,TASK,COMPLETED\n1,x,true\n2,\"y, z\",false\n"),
        Ok(vec![done(1, "x"), Todo::new(2, "y, z")])
    );
}

#[test]
fn load_fails_on_a_malformed_row() {
    assert_eq!(load(b"ID,TASK,COMPLETED\n1,a,false\nx,b,false\n"), Err(StoreError::MalformedRow));
    assert_eq!(load(b"ID,TASK,COMPLETED\n1,a,perhaps\n"), Err(StoreError::MalformedRow));
    assert_eq!(load(b"ID,TASK,COMPLETED\n1,a\n"), Err(StoreError::MalformedRow));
    assert_eq!(load(b"ID,TASK,COMPLETED\n1,a,false,more\n"), Err(StoreError::MalformedRow));
    assert_eq!(load(b"1,a,false\n"), Err(StoreError::MalformedRow));
}

#[test]
fn load_fails_on_unreadable_text() {
    assert_eq!(load(&[b'I', b'D', b',', 0xc3, 0x28, b'\n']), Err(StoreError::StoreUnreadable));
}

#[test]
fn writes_the_header_and_one_line_for_each_task() {
    assert_eq!(write_to_database(&abc()), Ok(ABC.to_vec()));
}

#[test]
fn writes_the_header_for_the_empty_list() {
    assert_eq!(write_to_database(&Vec::new()), Ok(HEADER.to_vec()));
}

#[test]
fn round_trip() {
    let records = vec![
        Todo::new(1, "plain"),
        done(2, "with, comma"),
        Todo::new(3, "with \"quotes\""),
        Todo::new(4, "semi;colon and 'single'"),
        done(5, "two\nlines"),
        Todo::new(6, ""),
    ];
    let text = write_to_database(&records).unwrap();
    assert_eq!(load(&text), Ok(records));
}

#[test]
fn round_trip_trims_white_space() {
    let mut outcome = create_todo(HEADER, "  pad, \"me\"  \n").unwrap();
    let text = write_to_database(&outcome.records).unwrap();
    assert_eq!(load(&text), Ok(vec![Todo::new(1, "pad, \"me\"")]));
    outcome.records[0].task = "  untrimmed  ".to_string();
    let text = write_to_database(&outcome.records).unwrap();
    assert_eq!(text, b"ID,TASK,COMPLETED\n1,untrimmed,false\n".to_vec());
    assert_eq!(load(&text), Ok(vec![Todo::new(1, "untrimmed")]));
}

#[test]
fn create_answers_with_the_new_line() {
    let outcome = create_todo(AB, "buy milk").unwrap();
    assert_eq!(outcome.records, vec![Todo::new(1, "a"), Todo::new(2, "b"), Todo::new(3, "buy milk")]);
    assert_eq!(outcome.persist, Persist::Append(b"3,buy milk,false\n".to_vec()));
    assert_eq!(outcome.removed, None);
}

#[test]
fn create_writes_the_header_into_a_file_without_rows() {
    let outcome = create_todo(b"", "buy milk").unwrap();
    assert_eq!(outcome.records, vec![Todo::new(1, "buy milk")]);
    assert_eq!(outcome.persist, Persist::Append(b"ID,TASK,COMPLETED\n1,buy milk,false\n".to_vec()));
}

#[test]
fn create_writes_no_second_header() {
    let outcome = create_todo(HEADER, "buy milk").unwrap();
    assert_eq!(outcome.records, vec![Todo::new(1, "buy milk")]);
    assert_eq!(outcome.persist, Persist::Append(b"1,buy milk,false\n".to_vec()));
}

#[test]
fn what_create_appends_reads_back() {
    let mut file = Vec::new();
    for input in ["one", "two, three", " four \n"] {
        let outcome = create_todo(&file, input).unwrap();
        match outcome.persist {
            Persist::Append(bytes) => file.extend_from_slice(&bytes),
            _ => panic!("create appends"),
        }
        assert_eq!(load(&file), Ok(outcome.records.clone()));
        assert_eq!(write_to_database(&outcome.records), Ok(file.clone()));
    }
    assert_eq!(load(&file), Ok(vec![Todo::new(1, "one"), Todo::new(2, "two, three"), Todo::new(3, "four")]));
}

#[test]
fn create_fails_on_a_malformed_table() {
    assert_eq!(create_todo(b"1,a,false\n", "x"), Err(StoreError::MalformedRow));
    assert_eq!(create_todo(&[0xff], "x"), Err(StoreError::StoreUnreadable));
}

#[test]
fn complete_rewrites_the_table() {
    let outcome = complete_todo(ABC, 2).unwrap();
    assert_eq!(outcome.records, vec![Todo::new(1, "a"), done(2, "b"), Todo::new(3, "c")]);
    assert_eq!(
        outcome.persist,
        Persist::Rewrite(b"ID,TASK,COMPLETED\n1,a,false\n2,b,true\n3,c,false\n".to_vec())
    );
}

#[test]
fn completing_again_writes_nothing() {
    let data = b"ID,TASK,COMPLETED\n1,a,false\n2,b,true\n";
    let outcome = complete_todo(data, 2).unwrap();
    assert_eq!(outcome, Outcome { records: vec![Todo::new(1, "a"), done(2, "b")], persist: Persist::Keep, removed: None });
}

#[test]
fn unknown_id() {
    let two = vec![Todo::new(1, "a"), Todo::new(2, "b")];
    assert_eq!(complete_todo(AB, 999), Ok(Outcome { records: two, persist: Persist::Keep, removed: None }));
    assert_eq!(update_todo(AB, 999, "x"), Err(StoreError::NotFound));
    assert_eq!(delete_todo(AB, 999), Err(StoreError::NotFound));
}

#[test]
fn update_rewrites_the_table() {
    let outcome = update_todo(ABC, 3, " sea, see \n").unwrap();
    assert_eq!(outcome.records, vec![Todo::new(1, "a"), Todo::new(2, "b"), Todo::new(3, "sea, see")]);
    assert_eq!(
        outcome.persist,
        Persist::Rewrite(b"ID,TASK,COMPLETED\n1,a,false\n2,b,false\n3,\"sea, see\",false\n".to_vec())
    );
}

#[test]
fn update_without_effect_writes_nothing() {
    let same = Ok(Outcome { records: abc(), persist: Persist::Keep, removed: None });
    assert_eq!(update_todo(ABC, 2, ""), same);
    assert_eq!(update_todo(ABC, 2, " \n"), same);
    assert_eq!(update_todo(ABC, 2, "b"), same);
    assert_eq!(update_todo(ABC, 2, "b\n"), same);
}

#[test]
fn update_refuses_an_id_out_of_range() {
    assert_eq!(update_todo(ABC, 0, "x"), Err(StoreError::NotFound));
    assert_eq!(update_todo(ABC, 4, "x"), Err(StoreError::NotFound));
    assert_eq!(update_todo(HEADER, 1, "x"), Err(StoreError::NotFound));
}

#[test]
fn delete_rewrites_the_table_renumbered() {
    let outcome = delete_todo(ABC, 2).unwrap();
    assert_eq!(outcome.records, vec![Todo::new(1, "a"), Todo::new(2, "c")]);
    assert_eq!(outcome.persist, Persist::Rewrite(b"ID,TASK,COMPLETED\n1,a,false\n2,c,false\n".to_vec()));
    assert_eq!(outcome.removed, Some("b".to_string()));
}

#[test]
fn deleting_the_only_task_leaves_the_header() {
    let outcome = delete_todo(b"ID,TASK,COMPLETED\n1,a,true\n", 1).unwrap();
    assert_eq!(outcome.records, Vec::new());
    assert_eq!(outcome.persist, Persist::Rewrite(HEADER.to_vec()));
    assert_eq!(outcome.removed, Some("a".to_string()));
}

#[test]
fn operations_fail_on_a_malformed_table() {
    let bad = b"ID,TASK,COMPLETED\n1,a,false\n2,b\n";
    assert_eq!(complete_todo(bad, 1), Err(StoreError::MalformedRow));
    assert_eq!(update_todo(bad, 1, "x"), Err(StoreError::MalformedRow));
    assert_eq!(delete_todo(bad, 1), Err(StoreError::MalformedRow));
    assert_eq!(list_todos(bad), Err(StoreError::MalformedRow));
}

#[test]
fn lists_the_table() {
    let table = list_todos(b"ID,TASK,COMPLETED\n1,buy milk,false\n2,call home,true\n").unwrap();
    let expected = "\
┌────┬───────────┬───────────┐
│ id │ task      │ completed │
├────┼───────────┼───────────┤
│ 1  │ buy milk  │ false     │
├────┼───────────┼───────────┤
│ 2  │ call home │ true      │
└────┴───────────┴───────────┘";
    assert_eq!(table, expected);
}

#[test]
fn lists_the_empty_table() {
    let table = list_todos(HEADER).unwrap();
    let expected = "\
┌────┬──────┬───────────┐
│ id │ task │ completed │
└────┴──────┴───────────┘";
    assert_eq!(table, expected);
    assert_eq!(list_todos(b""), Ok(expected.to_string()));
}
