use duckdb_sink::error::DuckdbServiceError;
use duckdb_sink::request::{take_all_finalizers, DuckdbRequest, Event, EventFinalizers};

type Error = DuckdbServiceError<String, String>;

fn event(payload: &str, handles: &[u32]) -> Event<String, u32> {
    Event {
        payload: payload.to_string(),
        finalizers: EventFinalizers { handles: handles.to_vec() },
    }
}

fn made(size: usize) -> Result<DuckdbRequest<String, u32, (u64, u64)>, Error> {
    let events = vec![event("one", &[1, 2]), event("two", &[]), event("three", &[3])];
    DuckdbRequest::try_from(events, (3, 30), size)
}

#[test]
fn request_gathers_the_handles_of_its_events() {
    let request = made(42).unwrap();
    assert_eq!(request.finalizers.handles, vec![1, 2, 3]);
    let payloads: Vec<&str> = request.events.iter().map(|e| e.payload.as_str()).collect();
    assert_eq!(payloads, vec!["one", "two", "three"]);
    assert!(request.events.iter().all(|e| e.finalizers.handles.is_empty()));
}

#[test]
fn request_reports_the_measured_size() {
    let request = made(42).unwrap();
    assert_eq!(request.get_metadata().request_encoded_size, 42);
    assert_eq!(request.get_metadata().events_estimated_json_encoded_byte_size, (3, 30));
    assert_eq!(made(1).unwrap().metadata.request_encoded_size, 1);
    assert_eq!(made(usize::MAX).unwrap().metadata.request_encoded_size, usize::MAX);
}

#[test]
fn batch_without_size_is_refused() {
    assert!(matches!(made(0), Err(DuckdbServiceError::EmptyPayload)));
}

#[test]
fn empty_batch_with_a_size_is_accepted() {
    let request: DuckdbRequest<String, u32, ()> =
        DuckdbRequest::try_from::<String, String>(Vec::new(), (), 2).unwrap();
    assert!(request.events.is_empty());
    assert!(request.finalizers.handles.is_empty());
}

#[test]
fn handles_are_handed_out_once() {
    let mut request = made(42).unwrap();
    assert_eq!(request.take_finalizers().handles, vec![1, 2, 3]);
    assert!(request.take_finalizers().handles.is_empty());
    assert_eq!(request.events.len(), 3);
    assert_eq!(request.metadata.request_encoded_size, 42);
    assert!(take_all_finalizers(&mut request.events).handles.is_empty());
}

#[test]
fn handles_keep_the_order_of_the_events() {
    let mut both = vec![event("a", &[9, 4]), event("b", &[7]), event("c", &[4])];
    assert_eq!(take_all_finalizers(&mut both).handles, vec![9, 4, 7, 4]);
}

#[test]
fn handles_merge_behind_those_held() {
    let mut held = EventFinalizers { handles: vec![1] };
    held.merge(EventFinalizers { handles: vec![3, 2] });
    assert_eq!(held.handles, vec![1, 3, 2]);
}

#[test]
fn metadata_is_changed_in_place() {
    let mut request = made(42).unwrap();
    request.metadata_mut().request_encoded_size = 7;
    assert_eq!(request.get_metadata().request_encoded_size, 7);
    assert_eq!(request.finalizers.handles, vec![1, 2, 3]);
}
