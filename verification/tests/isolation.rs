use duckdb_sink::error::DuckdbServiceError;
use duckdb_sink::request::{DuckdbRequest, Event, EventFinalizers};
use duckdb_sink::service::DuckdbService;
use duckdb_sink::write::{WriteAction, WriteReply, WriteTransaction};
use std::sync::{Arc, Mutex, TryLockError};

type Table = Vec<i32>;
type Write = WriteTransaction<Table, i32, String, String>;
type Service = DuckdbService<Table, String>;

fn service(table: &Arc<Mutex<Table>>) -> Service {
    DuckdbService::new(
        Arc::clone(table),
        "main".to_string(),
        "logs".to_string(),
        ":memory:".to_string(),
        String::new(),
    )
}

fn write(service: &mut Service, rows: i32) -> Write {
    let events = vec![Event { payload: (), finalizers: EventFinalizers { handles: vec![0u8] } }];
    let request = DuckdbRequest::try_from::<String, String>(events, (), 1).unwrap();
    service.call(request).encoded(Ok(rows)).ok().unwrap().0
}

/// Performs a write on a table in memory; operation `refused`, if any, fails.
fn perform(mut write: Write, refused: Option<&str>) -> Result<(), DuckdbServiceError<String, String>> {
    let table = match write.action() {
        Some(WriteAction::Lock { connection }) => Arc::clone(connection),
        _ => panic!("expected the lock"),
    };
    let mut committed = table.lock().unwrap();
    write.advance(WriteReply::Done);
    let mut open: Vec<i32> = Vec::new();
    loop {
        let (name, rows) = match write.action() {
            Some(WriteAction::Begin) => ("begin", None),
            Some(WriteAction::OpenAppender { .. }) => ("open", None),
            Some(WriteAction::Append { record_batch }) => ("append", Some(*record_batch)),
            Some(WriteAction::Flush) => ("flush", None),
            Some(WriteAction::Commit) => ("commit", None),
            Some(WriteAction::Lock { .. }) => panic!("locked twice"),
            None => return write.into_result().unwrap(),
        };
        if refused == Some(name) {
            write.advance(WriteReply::Failed { source: name.to_string() });
            continue;
        }
        open.extend(rows);
        if name == "commit" {
            committed.append(&mut open);
        }
        write.advance(WriteReply::Done);
    }
}

/// The table after two concurrent calls, of a service and its clone.
fn table_after(refused: Option<&'static str>, other_refused: Option<&'static str>) -> Vec<i32> {
    let table = Arc::new(Mutex::new(vec![7]));
    let mut first = service(&table);
    let mut second = first.clone();
    let (a, b) = (write(&mut first, 1), write(&mut second, 2));
    let runtime = tokio::runtime::Builder::new_current_thread().build().unwrap();
    let ra = runtime.spawn_blocking(move || perform(a, refused));
    let rb = runtime.spawn_blocking(move || perform(b, other_refused));
    assert_eq!(runtime.block_on(ra).unwrap().is_ok(), refused.is_none());
    assert_eq!(runtime.block_on(rb).unwrap().is_ok(), other_refused.is_none());
    let rows = table.lock().unwrap().clone();
    rows
}

#[test]
fn both_calls_that_succeed_leave_their_rows() {
    let rows = table_after(None, None);
    assert!(rows == vec![7, 1, 2] || rows == vec![7, 2, 1]);
}

#[test]
fn call_that_fails_leaves_nothing() {
    for refused in ["begin", "open", "append", "flush", "commit"] {
        assert_eq!(table_after(Some(refused), None), vec![7, 2]);
        assert_eq!(table_after(None, Some(refused)), vec![7, 1]);
        assert_eq!(table_after(Some(refused), Some("flush")), vec![7]);
    }
}

#[test]
fn lock_gives_no_reply_while_another_write_holds_it() {
    let table = Arc::new(Mutex::new(Vec::new()));
    let mut first = service(&table);
    let mut second = first.clone();
    let (a, b) = (write(&mut first, 1), write(&mut second, 2));
    match (a.action(), b.action()) {
        (Some(WriteAction::Lock { connection }), Some(WriteAction::Lock { connection: other })) => {
            let _held = connection.lock().unwrap();
            assert!(matches!(other.try_lock(), Err(TryLockError::WouldBlock)));
        }
        _ => panic!("expected the locks"),
    };
}
