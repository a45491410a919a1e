use todosh::error::StoreError;
use todosh::store::{complete, create, delete, find, update};
use todosh::todo::Todo;

fn abc() -> Vec<Todo> {
    vec![Todo::new(1, "a"), Todo::new(2, "b"), Todo::new(3, "c")]
}

fn ids(records: &Vec<Todo>) -> Vec<usize> {
    records.iter().map(|t| t.id).collect()
}

#[test]
fn create_appends() {
    let mut records = abc();
    create(&mut records, "buy milk");
    assert_eq!(records.len(), 4);
    assert_eq!(records[3], Todo { id: 4, task: "buy milk".to_string(), completed: false });
    assert_eq!(records[..3], abc()[..]);
}

#[test]
fn create_on_the_empty_list_gives_id_one() {
    let mut records = Vec::new();
    create(&mut records, "first");
    assert_eq!(records, vec![Todo::new(1, "first")]);
}

#[test]
fn create_trims_the_description() {
    let mut records = Vec::new();
    create(&mut records, "  buy milk \n");
    assert_eq!(records[0].task, "buy milk");
}

#[test]
fn complete_sets_the_flag_of_one_task() {
    let mut records = abc();
    assert!(complete(&mut records, 2));
    assert_eq!(
        records,
        vec![Todo::new(1, "a"), Todo { id: 2, task: "b".to_string(), completed: true }, Todo::new(3, "c")]
    );
}

#[test]
fn complete_is_monotonic() {
    let mut records = abc();
    assert!(complete(&mut records, 2));
    let after = records.clone();
    assert!(!complete(&mut records, 2));
    assert_eq!(records, after);
    assert!(records[1].completed);
}

#[test]
fn complete_unknown_id_changes_nothing() {
    let mut records = vec![Todo::new(1, "a"), Todo::new(2, "b")];
    assert!(!complete(&mut records, 999));
    assert_eq!(records, vec![Todo::new(1, "a"), Todo::new(2, "b")]);
    assert!(!complete(&mut records, 0));
    assert_eq!(records, vec![Todo::new(1, "a"), Todo::new(2, "b")]);
}

#[test]
fn update_replaces_the_description() {
    let mut records = abc();
    assert_eq!(update(&mut records, 2, " bee \n"), Ok(true));
    assert_eq!(records, vec![Todo::new(1, "a"), Todo::new(2, "bee"), Todo::new(3, "c")]);
}

#[test]
fn update_keeps_the_flag() {
    let mut records = abc();
    complete(&mut records, 3);
    assert_eq!(update(&mut records, 3, "sea"), Ok(true));
    assert_eq!(records[2], Todo { id: 3, task: "sea".to_string(), completed: true });
}

#[test]
fn update_with_blank_input_changes_nothing() {
    let mut records = abc();
    assert_eq!(update(&mut records, 2, ""), Ok(false));
    assert_eq!(records, abc());
    assert_eq!(update(&mut records, 2, "  \n"), Ok(false));
    assert_eq!(records, abc());
}

#[test]
fn update_with_the_present_description_changes_nothing() {
    let mut records = abc();
    assert_eq!(update(&mut records, 2, "b"), Ok(false));
    assert_eq!(records, abc());
    assert_eq!(update(&mut records, 2, " b\n"), Ok(false));
    assert_eq!(records, abc());
}

#[test]
fn update_unknown_id_is_not_found() {
    let mut records = vec![Todo::new(1, "a"), Todo::new(2, "b")];
    assert_eq!(update(&mut records, 999, "x"), Err(StoreError::NotFound));
    assert_eq!(records, vec![Todo::new(1, "a"), Todo::new(2, "b")]);
    assert_eq!(update(&mut records, 0, "x"), Err(StoreError::NotFound));
    assert_eq!(update(&mut records, 3, "x"), Err(StoreError::NotFound));
    assert_eq!(records, vec![Todo::new(1, "a"), Todo::new(2, "b")]);
}

#[test]
fn delete_renumbers() {
    let mut records = abc();
    assert_eq!(delete(&mut records, 2), Ok("b".to_string()));
    assert_eq!(records, vec![Todo::new(1, "a"), Todo::new(2, "c")]);
}

#[test]
fn delete_first_and_last() {
    let mut records = abc();
    assert_eq!(delete(&mut records, 1), Ok("a".to_string()));
    assert_eq!(records, vec![Todo::new(1, "b"), Todo::new(2, "c")]);
    assert_eq!(delete(&mut records, 2), Ok("c".to_string()));
    assert_eq!(records, vec![Todo::new(1, "b")]);
    assert_eq!(delete(&mut records, 1), Ok("b".to_string()));
    assert_eq!(records, Vec::new());
}

#[test]
fn delete_keeps_the_flags() {
    let mut records = abc();
    complete(&mut records, 3);
    assert_eq!(delete(&mut records, 1), Ok("a".to_string()));
    assert_eq!(records, vec![Todo::new(1, "b"), Todo { id: 2, task: "c".to_string(), completed: true }]);
}

#[test]
fn delete_unknown_id_is_not_found() {
    let mut records = vec![Todo::new(1, "a"), Todo::new(2, "b")];
    assert_eq!(delete(&mut records, 999), Err(StoreError::NotFound));
    assert_eq!(records, vec![Todo::new(1, "a"), Todo::new(2, "b")]);
    let mut none: Vec<Todo> = Vec::new();
    assert_eq!(delete(&mut none, 1), Err(StoreError::NotFound));
}

#[test]
fn delete_mends_ids_that_were_out_of_step() {
    let mut records = vec![Todo::new(7, "a"), Todo::new(3, "b"), Todo::new(7, "c"), Todo::new(9, "d")];
    assert_eq!(delete(&mut records, 7), Ok("c".to_string()));
    assert_eq!(records, vec![Todo::new(1, "b"), Todo::new(2, "d")]);
}

#[test]
fn ids_stay_contiguous() {
    let mut records: Vec<Todo> = Vec::new();
    create(&mut records, "a");
    create(&mut records, "b");
    create(&mut records, "c");
    assert_eq!(ids(&records), vec![1, 2, 3]);
    delete(&mut records, 1).unwrap();
    assert_eq!(ids(&records), vec![1, 2]);
    create(&mut records, "d");
    create(&mut records, "e");
    assert_eq!(ids(&records), vec![1, 2, 3, 4]);
    delete(&mut records, 3).unwrap();
    complete(&mut records, 2);
    update(&mut records, 1, "z").unwrap();
    delete(&mut records, 3).unwrap();
    assert_eq!(ids(&records), vec![1, 2]);
    assert_eq!(records[0].task, "z");
    assert_eq!(records[1].task, "c");
    assert!(records[1].completed);
}

#[test]
fn find_gives_the_place() {
    let records = abc();
    assert_eq!(find(&records, 1), Some(0));
    assert_eq!(find(&records, 3), Some(2));
    assert_eq!(find(&records, 4), None);
    assert_eq!(find(&records, 0), None);
    assert_eq!(find(&Vec::new(), 1), None);
}
