use query_sandbox::database::JSONLinesDatabase;
use query_sandbox::lifecycle::Action;
use query_sandbox::runtime::{JSQueryRuntime, Limits, QueryRuntime};
use query_sandbox::table::{IteratorTable, TableError};
use serde_json::Value;

fn source(text: &str) -> JSONLinesDatabase {
    let mut db = JSONLinesDatabase::new("rows.jsonl".to_string());
    db.text = text.as_bytes().to_vec();
    db
}

#[test]
fn iterator_gives_the_rows_one_by_one_and_then_none() {
    let db = source("1\n\n2\nx\n3");
    let mut table = IteratorTable::new();
    assert_eq!(table.begin_at(17), Ok(17));
    assert_eq!(table.next(&db, 17), Ok(Some(Value::from(1))));
    assert_eq!(table.next(&db, 17), Ok(Some(Value::from(2))));
    assert_eq!(table.next(&db, 17), Ok(Some(Value::from(3))));
    assert_eq!(table.next(&db, 17), Ok(None));
    assert_eq!(table.next(&db, 17), Ok(None));
}

#[test]
fn iterators_do_not_disturb_each_other() {
    let db = source("1\n2\n");
    let mut table = IteratorTable::new();
    assert_eq!(table.begin_at(1), Ok(1));
    assert_eq!(table.next(&db, 1), Ok(Some(Value::from(1))));
    assert_eq!(table.begin_at(2), Ok(2));
    assert_eq!(table.next(&db, 2), Ok(Some(Value::from(1))));
    assert_eq!(table.next(&db, 1), Ok(Some(Value::from(2))));
    assert_eq!(table.next(&db, 2), Ok(Some(Value::from(2))));
}

#[test]
fn number_that_is_held_is_an_error_and_the_new_iterator_takes_its_place() {
    let db = source("1\n2\n");
    let mut table = IteratorTable::new();
    assert_eq!(table.begin_at(5), Ok(5));
    assert_eq!(table.next(&db, 5), Ok(Some(Value::from(1))));
    assert_eq!(table.begin_at(5), Err(TableError::IndexTaken));
    assert_eq!(table.next(&db, 5), Ok(Some(Value::from(1))));
}

#[test]
fn unknown_number_is_an_error() {
    let db = source("1\n");
    let mut table = IteratorTable::new();
    assert_eq!(table.next(&db, 0), Err(TableError::NoSuchIterator));
    assert_eq!(table.begin_at(1), Ok(1));
    assert_eq!(table.next(&db, 2), Err(TableError::NoSuchIterator));
}

#[test]
fn drawn_number_names_the_new_iterator() {
    let db = source("\"row\"\n");
    let mut table = IteratorTable::new();
    let index = table.begin().unwrap();
    assert_eq!(table.next(&db, index), Ok(Some(Value::from("row"))));
    assert_eq!(table.next(&db, index), Ok(None));
}

#[test]
fn table_errors_have_their_texts() {
    assert_eq!(TableError::IndexTaken.message(), "index for iterator already exists somehow??");
    assert_eq!(TableError::NoSuchIterator.message(), "no such iterator");
}

#[test]
fn runtime_starts_without_limits_and_takes_those_it_is_given() {
    let mut runtime = JSQueryRuntime::new();
    assert_eq!(runtime.limits, Limits { heap: None, time: None });
    assert_eq!(Limits::default(), Limits { heap: None, time: None });
    let asked = Limits { heap: Some(64 << 20), time: Some(500_000_000) };
    assert_eq!(*runtime.set_limits(&asked), asked);
    assert_eq!(runtime.limits, asked);
    let only_heap = Limits { heap: Some(1), time: None };
    assert_eq!(*runtime.set_limits(&only_heap), only_heap);
    assert_eq!(runtime.limits, only_heap);
}

#[test]
fn runtime_hands_out_a_task_for_the_script_under_its_limits() {
    let mut runtime = JSQueryRuntime::new();
    runtime.set_limits(&Limits { heap: Some(4096), time: None });
    let mut task = runtime.execute("database.send(1)".to_string());
    assert_eq!(task.source(), "database.send(1)");
    assert_eq!(task.action(), Some(Action::GenerateKey));
    task.record(Ok(()));
    assert_eq!(task.action(), Some(Action::CreateEngine { heap: Some(4096) }));
}
