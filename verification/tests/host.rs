use query_sandbox::authenticator::{CursorAuthenticator, SealedCursor};
use query_sandbox::database::{Database, JSONLinesDatabase, Position, ProviderError};
use query_sandbox::driver::{collect, respond, respond_with};
use query_sandbox::error::QueryError;
use query_sandbox::host::{
    answer_begin, answer_more, answer_next, database_begin, database_more, database_next,
    database_send, source_at_hand, OP_BEGIN, OP_MORE, OP_NEXT, OP_SEND,
};
use query_sandbox::ringbuffer::{Consumed, RingBuffer};
use serde_json::Value;

fn value(text: &str) -> Value {
    serde_json::from_str(text).unwrap()
}

fn source(text: &str) -> JSONLinesDatabase {
    let mut db = JSONLinesDatabase::new("rows.jsonl".to_string());
    db.text = text.as_bytes().to_vec();
    db
}

/// Runs the host as a script would that reads every row and emits those
/// that `keep` lets through, with a consumer that collects whenever the
/// script has to wait.
fn run(db: &JSONLinesDatabase, keep: fn(&Value) -> bool) -> String {
    let auth = CursorAuthenticator::new();
    let mut results: RingBuffer<Value, 8> = RingBuffer::new();
    let mut collected = Vec::new();
    let outcome = (|| {
        let mut cursor = database_begin(db, &auth)?;
        while database_more(db, &auth, &cursor)? {
            let page = database_next(db, &auth, &cursor)?;
            cursor = page.cursor;
            let mut emitted: Vec<Value> = page.rows.into_iter().filter(keep).collect();
            loop {
                emitted = database_send(&mut results, emitted);
                if emitted.is_empty() {
                    break;
                }
                assert!(!collect(&mut results, &mut collected));
            }
        }
        Ok(())
    })();
    results.close();
    assert!(collect(&mut results, &mut collected));
    respond(&collected, outcome)
}

#[test]
fn operation_names_are_those_of_the_wire_contract() {
    assert_eq!(OP_BEGIN, "database.begin");
    assert_eq!(OP_NEXT, "database.next");
    assert_eq!(OP_MORE, "database.more");
    assert_eq!(OP_SEND, "database.send");
}

#[test]
fn echo_of_two_rows() {
    let db = source("{\"a\":1}\n{\"a\":2}\n");
    assert_eq!(run(&db, |_| true), "[{\"a\":1},{\"a\":2}]");
}

#[test]
fn filter_keeps_the_even_row() {
    let db = source("{\"a\":1}\n{\"a\":2}\n");
    assert_eq!(run(&db, |row| row["a"].as_i64().unwrap() % 2 == 0), "[{\"a\":2}]");
}

#[test]
fn empty_source_gives_the_empty_array() {
    let db = source("");
    assert_eq!(run(&db, |_| true), "[]");
}

#[test]
fn ten_thousand_rows_are_echoed_in_order() {
    let mut text = String::new();
    for n in 0..10_000 {
        text.push_str(&format!("{{\"row\":{}}}\n", n));
    }
    let db = source(&text);
    let body = run(&db, |_| true);
    let rows: Vec<Value> = serde_json::from_str(&body).unwrap();
    assert_eq!(rows.len(), 10_000);
    for (n, row) in rows.iter().enumerate() {
        assert_eq!(row["row"], Value::from(n as u64));
    }
}

#[test]
fn begin_seals_the_start_of_the_source() {
    let db = source("1\n");
    let auth = CursorAuthenticator::with_key(vec![1u8; 32]);
    let sealed = database_begin(&db, &auth).ok().unwrap();
    assert_eq!(sealed.data, "0");
    assert_eq!(sealed.sig, auth.sign("0"));
}

#[test]
fn next_gives_the_batch_and_the_cursor_behind_it() {
    let db = source("1\n2\n");
    let auth = CursorAuthenticator::with_key(vec![1u8; 32]);
    let start = database_begin(&db, &auth).ok().unwrap();
    let page = database_next(&db, &auth, &start).ok().unwrap();
    assert_eq!(page.rows, vec![value("1"), value("2")]);
    assert_eq!(page.cursor.data, "4");
    assert_eq!(page.cursor.sig, auth.sign("4"));
    assert_eq!(database_more(&db, &auth, &start).ok(), Some(true));
    assert_eq!(database_more(&db, &auth, &page.cursor).ok(), Some(false));
}

#[test]
fn hand_made_cursor_is_turned_down_by_next_and_more() {
    let db = source("{\"a\":1}\n{\"a\":2}\n");
    let auth = CursorAuthenticator::new();
    let forged = SealedCursor { data: "8".to_string(), sig: "00".repeat(32) };
    assert!(matches!(database_next(&db, &auth, &forged), Err(QueryError::InvalidCursor)));
    assert!(matches!(database_more(&db, &auth, &forged), Err(QueryError::InvalidCursor)));
    let unsigned = SealedCursor { data: "0".to_string(), sig: String::new() };
    assert!(matches!(database_next(&db, &auth, &unsigned), Err(QueryError::InvalidCursor)));
}

#[test]
fn tampered_cursor_ends_the_query_with_an_invalid_cursor_response() {
    let db = source("{\"a\":1}\n{\"a\":2}\n");
    let auth = CursorAuthenticator::new();
    let mut results: RingBuffer<Value, 8> = RingBuffer::new();
    let start = database_begin(&db, &auth).ok().unwrap();
    let forged = SealedCursor { data: start.data, sig: "0".repeat(64) };
    let outcome = database_next(&db, &auth, &forged).map(|_| ());
    results.close();
    let mut collected = Vec::new();
    assert!(collect(&mut results, &mut collected));
    let body = respond(&collected, outcome);
    assert!(body.contains("InvalidCursor"));
}

#[test]
fn cursor_of_another_request_is_turned_down() {
    let db = source("1\n2\n");
    let one = CursorAuthenticator::new();
    let other = CursorAuthenticator::new();
    let sealed = database_begin(&db, &one).ok().unwrap();
    assert!(database_next(&db, &one, &sealed).is_ok());
    assert!(matches!(database_next(&db, &other, &sealed), Err(QueryError::InvalidCursor)));
}

#[test]
fn source_failures_become_provider_errors() {
    let auth = CursorAuthenticator::with_key(vec![3u8; 32]);
    let down = || ProviderError::Unavailable("disk gone".to_string());
    let begun = answer_begin::<JSONLinesDatabase>(&auth, Err(down()));
    assert!(matches!(begun, Err(QueryError::Provider(report)) if report == "disk gone"));
    let read = answer_next::<JSONLinesDatabase>(&auth, &Position { offset: 3 }, Err(down()));
    assert!(matches!(read, Err(QueryError::Provider(report)) if report == "disk gone"));
    assert!(matches!(answer_more(Err(down())), Err(QueryError::Provider(_))));
    assert_eq!(answer_more(Ok(true)).ok(), Some(true));
    let behind = Position { offset: 3 };
    let page = answer_next::<JSONLinesDatabase>(&auth, &behind, Ok(vec![value("1")]));
    let page = page.ok().unwrap();
    assert_eq!(page.rows, vec![value("1")]);
    assert_eq!(page.cursor.data, "3");
}

#[test]
fn send_hands_back_what_does_not_fit() {
    let mut results: RingBuffer<Value, 3> = RingBuffer::new();
    let values: Vec<Value> = (0..5).map(Value::from).collect();
    let rest = database_send(&mut results, values);
    assert_eq!(rest, vec![Value::from(3), Value::from(4)]);
    let rest = database_send(&mut results, rest);
    assert_eq!(rest, vec![Value::from(3), Value::from(4)]);
    assert!(matches!(results.consume_one(), Consumed::Item(v) if v == Value::from(0)));
    let rest = database_send(&mut results, rest);
    assert_eq!(rest, vec![Value::from(4)]);
    let mut collected = Vec::new();
    assert!(!collect(&mut results, &mut collected));
    assert_eq!(collected, vec![Value::from(1), Value::from(2), Value::from(3)]);
    assert!(database_send(&mut results, rest).is_empty());
}

#[test]
fn closed_buffer_still_holds_what_was_emitted() {
    let mut results: RingBuffer<Value, 4> = RingBuffer::new();
    assert!(database_send(&mut results, vec![value("1")]).is_empty());
    results.close();
    let mut collected = Vec::new();
    assert!(collect(&mut results, &mut collected));
    assert_eq!(collected, vec![value("1")]);
    assert!(matches!(results.consume_one(), Consumed::Closed));
}

#[test]
fn response_is_the_array_or_the_error_text() {
    let values = vec![value("{\"a\":1}"), value("null"), value("\"x\"")];
    assert_eq!(respond(&values, Ok(())), "[{\"a\":1},null,\"x\"]");
    assert_eq!(respond(&Vec::new(), Ok(())), "[]");
    let limit = Err(QueryError::LimitExceeded("time".to_string()));
    assert_eq!(respond(&values, limit), "LimitExceeded: time");
    assert_eq!(respond_with(Ok("[1]".to_string()), Ok(())), "[1]");
    assert_eq!(respond_with(Err("bad key".to_string()), Ok(())), "InternalError: bad key");
    let script = Err(QueryError::Script("x is not defined".to_string()));
    assert_eq!(respond_with(Ok("[1]".to_string()), script), "ScriptError: x is not defined");
}

#[test]
fn every_error_has_its_text() {
    assert_eq!(QueryError::InvalidCursor.message(), "InvalidCursor");
    assert_eq!(QueryError::Provider("p".to_string()).message(), "ProviderError: p");
    assert_eq!(QueryError::Script("s".to_string()).message(), "ScriptError: s");
    assert_eq!(QueryError::LimitExceeded("l".to_string()).message(), "LimitExceeded: l");
    assert_eq!(QueryError::Internal("i".to_string()).message(), "InternalError: i");
}

#[test]
fn script_that_was_stopped_fails_with_the_limit_if_the_timer_had_fired() {
    let stopped = QueryError::script_failure("terminated".to_string(), true);
    assert!(matches!(stopped, QueryError::LimitExceeded(report) if report == "terminated"));
    let thrown = QueryError::script_failure("x is not defined".to_string(), false);
    assert!(matches!(thrown, QueryError::Script(report) if report == "x is not defined"));
}

#[test]
fn no_source_is_at_hand_before_reading_has_begun() {
    let none: Option<&JSONLinesDatabase> = None;
    assert!(matches!(source_at_hand(none), Err(QueryError::InvalidCursor)));
    let db = source("1\n");
    let held = source_at_hand(Some(&db)).ok().unwrap();
    assert_eq!(held.text, db.text);
}
