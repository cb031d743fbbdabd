use duckdb_sink::endpoint::{default_database, duckdb_path, DuckdbPath};
use std::path::Path;

fn file_of(endpoint: &str) -> &str {
    match duckdb_path(endpoint) {
        DuckdbPath::File(path) => path,
        DuckdbPath::Memory => panic!("expected file path"),
    }
}

#[test]
fn parses_memory_endpoint() {
    assert!(matches!(duckdb_path(":memory:"), DuckdbPath::Memory));
    assert!(matches!(
        duckdb_path("duckdb:///:memory:"),
        DuckdbPath::Memory
    ));
}

#[test]
fn parses_file_endpoint() {
    match duckdb_path("duckdb:///tmp/vector.duckdb") {
        DuckdbPath::File(path) => assert_eq!(Path::new(path), Path::new("/tmp/vector.duckdb")),
        DuckdbPath::Memory => panic!("expected file path"),
    }

    match duckdb_path("relative.duckdb") {
        DuckdbPath::File(path) => assert_eq!(Path::new(path), Path::new("relative.duckdb")),
        DuckdbPath::Memory => panic!("expected file path"),
    }
}

#[test]
fn scheme_without_location_is_memory() {
    assert!(matches!(duckdb_path("duckdb://"), DuckdbPath::Memory));
    assert!(matches!(duckdb_path("duckdb://:memory:"), DuckdbPath::Memory));
}

#[test]
fn memory_needs_its_exact_name() {
    assert_eq!(file_of("/:memory:"), "/:memory:");
    assert_eq!(file_of("duckdb:///:memory:/x"), "/:memory:/x");
    assert_eq!(file_of(":memory"), ":memory");
    assert_eq!(file_of("DUCKDB://:memory:"), "DUCKDB://:memory:");
}

#[test]
fn empty_endpoint_is_an_empty_path() {
    assert_eq!(file_of(""), "");
}

#[test]
fn scheme_is_stripped_once() {
    assert_eq!(file_of("duckdb://duckdb://x"), "duckdb://x");
    assert_eq!(file_of("duckdb://data/é.duckdb"), "data/é.duckdb");
    assert_eq!(file_of("duckdb:/x"), "duckdb:/x");
}

#[test]
fn scheme_is_optional_for_files() {
    assert_eq!(file_of("duckdb://sub/file.db"), file_of("sub/file.db"));
}

#[test]
fn default_database_is_main() {
    assert_eq!(default_database(), "main");
}
