use duckdb_sink::error::DuckdbServiceError;
use duckdb_sink::request::{DuckdbRequest, Event, EventFinalizers};
use duckdb_sink::response::{DuckdbResponse, EventStatus};
use duckdb_sink::retry::DuckdbRetryLogic;
use duckdb_sink::service::{DuckdbCall, DuckdbService, EndpointBytesSent, DUCKDB_PROTOCOL};
use duckdb_sink::write::{WriteAction, WriteReply, WriteTransaction};
use std::sync::{Arc, Mutex};
use tokio::task::JoinError;

type Error = DuckdbServiceError<String, String>;
type Service = DuckdbService<u32, String>;
type Call = DuckdbCall<u32, String, &'static str, u32, u64>;
type Write = WriteTransaction<u32, Vec<i32>, String, String>;
type Answer = Result<(EndpointBytesSent, DuckdbResponse<u64>), Error>;

fn service(connection: &Arc<Mutex<u32>>) -> Service {
    DuckdbService::new(
        Arc::clone(connection),
        "main".to_string(),
        "logs".to_string(),
        "duckdb:///tmp/x.duckdb".to_string(),
        "serializer".to_string(),
    )
}

fn request() -> DuckdbRequest<&'static str, u32, u64> {
    let events = vec![Event {
        payload: "one",
        finalizers: EventFinalizers { handles: vec![8] },
    }];
    DuckdbRequest::try_from::<String, String>(events, 11, 13).unwrap()
}

fn call() -> Call {
    service(&Arc::new(Mutex::new(0))).call(request())
}

fn lost_task() -> JoinError {
    let runtime = tokio::runtime::Builder::new_current_thread().build().unwrap();
    let task = runtime.spawn(std::future::pending::<()>());
    task.abort();
    runtime.block_on(task).unwrap_err()
}

/// Runs a call in which the operation with number `fails`, if any, gets the
/// reply `reply` and all others are done.
fn answer(fails: Option<usize>, reply: WriteReply<String>) -> Answer {
    let (mut write, pending) = call().encoded::<Vec<i32>, String, String>(Ok(vec![1])).ok().unwrap();
    let mut reply = Some(reply);
    let mut n = 0;
    while write.action().is_some() {
        if fails == Some(n) {
            write.advance(reply.take().unwrap());
        } else {
            write.advance(WriteReply::Done);
        }
        n += 1;
    }
    pending.joined(Ok(write.into_result().unwrap()))
}

fn error(answer: Answer) -> Error {
    match answer {
        Ok(_) => panic!("expected a failure"),
        Err(error) => error,
    }
}

#[test]
fn service_is_always_ready() {
    let mut service = service(&Arc::new(Mutex::new(0)));
    let ready: Result<(), Error> = service.poll_ready();
    assert!(ready.is_ok());
}

#[test]
fn call_copies_the_service_and_shares_the_connection() {
    let connection = Arc::new(Mutex::new(3));
    let mut service = service(&connection);
    assert_eq!(Arc::strong_count(&connection), 2);
    let call = service.call(request());
    assert_eq!(Arc::strong_count(&connection), 3);
    assert!(Arc::ptr_eq(&connection, &call.connection));
    assert_eq!(call.database, "main");
    assert_eq!(call.table, "logs");
    assert_eq!(call.endpoint, "duckdb:///tmp/x.duckdb");
    assert_eq!(call.serializer, "serializer");
    assert_eq!(call.request.events[0].payload, "one");
    assert_eq!(call.request.finalizers.handles, vec![8]);
}

#[test]
fn cloned_service_writes_to_the_same_table() {
    let connection = Arc::new(Mutex::new(3));
    let mut copy = service(&connection).clone();
    let call = copy.call(request());
    assert!(Arc::ptr_eq(&connection, &call.connection));
    assert_eq!(call.table, "logs");
    assert_eq!(call.database, "main");
    assert_eq!(call.endpoint, "duckdb:///tmp/x.duckdb");
    assert_eq!(call.serializer, "serializer");
}

#[test]
fn encoded_batch_is_written_where_the_service_points() {
    let connection = Arc::new(Mutex::new(3));
    let call = service(&connection).call(request());
    let (mut write, pending): (Write, _) = call.encoded(Ok(vec![4, 5])).ok().unwrap();
    match write.action() {
        Some(WriteAction::Lock { connection: locked }) => assert!(Arc::ptr_eq(&connection, locked)),
        _ => panic!("expected the lock"),
    }
    write.advance(WriteReply::Done);
    write.advance(WriteReply::Done);
    match write.action() {
        Some(WriteAction::OpenAppender { table, database }) => {
            assert_eq!(table, "logs");
            assert_eq!(database, "main");
        }
        _ => panic!("expected the appender"),
    }
    write.advance(WriteReply::Done);
    match write.action() {
        Some(WriteAction::Append { record_batch }) => assert_eq!(*record_batch, vec![4, 5]),
        _ => panic!("expected the rows"),
    }
    assert_eq!(pending.endpoint, "duckdb:///tmp/x.duckdb");
    assert_eq!(pending.request.metadata.request_encoded_size, 13);
}

#[test]
fn written_batch_is_reported_and_answered() {
    let (report, response) = answer(None, WriteReply::Done).ok().unwrap();
    assert_eq!(report.byte_size, 13);
    assert_eq!(report.protocol, "duckdb");
    assert_eq!(report.protocol, DUCKDB_PROTOCOL);
    assert_eq!(report.endpoint, "duckdb:///tmp/x.duckdb");
    assert_eq!(response.event_status(), EventStatus::Delivered);
    assert_eq!(response.bytes_sent(), Some(13));
    assert_eq!(*response.events_sent(), 11);
}

#[test]
fn encoding_failure_fails_the_call_for_good() {
    let next = call().encoded::<Vec<i32>, String, String>(Err("null in id".to_string()));
    match next {
        Ok(_) => panic!("expected a failure"),
        Err(error) => {
            assert!(!DuckdbRetryLogic.is_retriable_error(&error));
            assert_eq!(error.to_string(), "Arrow encoding error: null in id");
            assert!(matches!(error, DuckdbServiceError::ArrowEncoding { .. }));
        }
    }
}

#[test]
fn database_failure_fails_the_call_for_good() {
    for n in 1..6 {
        let reply = WriteReply::Failed { source: "no such table".to_string() };
        let error = error(answer(Some(n), reply));
        assert!(!DuckdbRetryLogic.is_retriable_error(&error));
        assert_eq!(error.to_string(), "DuckDB error: no such table");
    }
}

#[test]
fn poisoned_lock_is_retried() {
    let error = error(answer(Some(0), WriteReply::Poisoned));
    assert!(DuckdbRetryLogic.is_retriable_error(&error));
    assert_eq!(error.to_string(), "Connection mutex poisoned");
}

#[test]
fn lost_task_is_retried() {
    let (_, pending) = call().encoded::<Vec<i32>, String, String>(Ok(vec![1])).ok().unwrap();
    let lost = lost_task();
    let shown = lost.to_string();
    let error = error(pending.joined(Err(lost)));
    assert!(DuckdbRetryLogic.is_retriable_error(&error));
    assert_eq!(error.to_string(), format!("Task join error: {shown}"));
    match error {
        DuckdbServiceError::Join { source } => assert!(source.is_cancelled()),
        _ => panic!("expected the lost task"),
    }
}

#[test]
fn refused_batch_is_not_retried() {
    let error: Error = DuckdbServiceError::EmptyPayload;
    assert!(!DuckdbRetryLogic.is_retriable_error(&error));
    assert_eq!(error.to_string(), "Payload should never be zero length");
}

#[test]
fn message_takes_the_text_of_the_source() {
    let error: Error = DuckdbServiceError::DuckDb { source: "a".to_string() };
    assert_eq!(error.message("b"), "DuckDB error: b");
    let error: Error = DuckdbServiceError::MutexPoisoned;
    assert_eq!(error.message("b"), "Connection mutex poisoned");
}

#[test]
fn task_lost_with_the_lock_fails_later_calls_of_clones() {
    let connection = Arc::new(Mutex::new(3));
    let mut first = service(&connection);
    let mut second = first.clone();

    let (mut write, pending): (Write, _) = first.call(request()).encoded(Ok(vec![1])).ok().unwrap();
    let runtime = tokio::runtime::Builder::new_current_thread().build().unwrap();
    let task = runtime.spawn_blocking(move || {
        let locked = match write.action() {
            Some(WriteAction::Lock { connection }) => Arc::clone(connection),
            _ => panic!("expected the lock"),
        };
        let _guard = locked.lock().unwrap();
        write.advance(WriteReply::Done);
        if matches!(write.action(), Some(WriteAction::Begin)) {
            panic!("lost");
        }
        write.into_result().unwrap()
    });
    let lost = error(pending.joined(runtime.block_on(task)));
    assert!(matches!(lost, DuckdbServiceError::Join { .. }));
    assert!(DuckdbRetryLogic.is_retriable_error(&lost));

    for later in [&mut first, &mut second] {
        let (mut write, pending): (Write, _) =
            later.call(request()).encoded(Ok(vec![1])).ok().unwrap();
        let reply = match write.action() {
            Some(WriteAction::Lock { connection }) => match connection.lock() {
                Ok(_) => WriteReply::Done,
                Err(_) => WriteReply::Poisoned,
            },
            _ => panic!("expected the lock"),
        };
        write.advance(reply);
        let poisoned = error(pending.joined(Ok(write.into_result().unwrap())));
        assert!(matches!(poisoned, DuckdbServiceError::MutexPoisoned));
        assert!(DuckdbRetryLogic.is_retriable_error(&poisoned));
    }
}
