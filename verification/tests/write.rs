use duckdb_sink::error::DuckdbServiceError;
use duckdb_sink::write::{WriteAction, WriteReply, WriteTransaction};
use std::sync::{Arc, Mutex};

type Write = WriteTransaction<u32, Vec<i32>, String, String>;

fn write() -> Write {
    WriteTransaction::new(
        Arc::new(Mutex::new(5)),
        "analytics".to_string(),
        "events".to_string(),
        vec![1, 2],
    )
}

fn name(write: &Write) -> &'static str {
    match write.action() {
        Some(WriteAction::Lock { .. }) => "lock",
        Some(WriteAction::Begin) => "begin",
        Some(WriteAction::OpenAppender { .. }) => "open",
        Some(WriteAction::Append { .. }) => "append",
        Some(WriteAction::Flush) => "flush",
        Some(WriteAction::Commit) => "commit",
        None => "end",
    }
}

fn after_done(n: usize) -> Write {
    let mut write = write();
    for _ in 0..n {
        write.advance(WriteReply::Done);
    }
    write
}

fn failed() -> WriteReply<String> {
    WriteReply::Failed { source: "refused".to_string() }
}

#[test]
fn operations_follow_in_order_with_the_commit_last() {
    let names: Vec<&str> = (0..8).map(|n| name(&after_done(n))).collect();
    assert_eq!(
        names,
        vec!["lock", "begin", "open", "append", "flush", "commit", "end", "end"]
    );
}

#[test]
fn operations_carry_what_they_need() {
    let write = write();
    match write.action() {
        Some(WriteAction::Lock { connection }) => assert_eq!(*connection.lock().unwrap(), 5),
        _ => panic!("expected the lock"),
    }
    match after_done(2).action() {
        Some(WriteAction::OpenAppender { table, database }) => {
            assert_eq!(table, "events");
            assert_eq!(database, "analytics");
        }
        _ => panic!("expected the appender"),
    }
    match after_done(3).action() {
        Some(WriteAction::Append { record_batch }) => assert_eq!(*record_batch, vec![1, 2]),
        _ => panic!("expected the rows"),
    };
}

#[test]
fn write_succeeds_once_all_is_done() {
    assert!(matches!(after_done(6).into_result(), Some(Ok(()))));
    for n in 0..6 {
        assert!(after_done(n).into_result().is_none());
    }
}

#[test]
fn first_failure_decides() {
    for n in 0..6 {
        let mut write = after_done(n);
        write.advance(failed());
        assert_eq!(name(&write), "end");
        write.advance(WriteReply::Poisoned);
        write.advance(WriteReply::Done);
        match write.into_result() {
            Some(Err(DuckdbServiceError::DuckDb { source })) => assert_eq!(source, "refused"),
            _ => panic!("expected the error of the database"),
        }
    }
}

#[test]
fn poisoned_lock_ends_the_write() {
    let mut write = write();
    write.advance(WriteReply::Poisoned);
    assert_eq!(name(&write), "end");
    assert!(matches!(write.into_result(), Some(Err(DuckdbServiceError::MutexPoisoned))));
}

#[test]
fn success_is_final() {
    let mut write = after_done(6);
    write.advance(failed());
    assert!(matches!(write.into_result(), Some(Ok(()))));
}
