[package]
name = "duckdb_sink"
version = "0.1.0"
edition = "2021"
publish = false

[dependencies]
arrow = { version = "=60.1.0", default-features = false }
duckdb = { version = "=1.20000.1", default-features = false, features = ["appender-arrow"] }
futures = "=0.3.34"
snafu = "=0.8.9"
tokio = { version = "=1.54.1", features = ["rt"] }
tower = { version = "=0.5.3", default-features = false }
