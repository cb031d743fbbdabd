//! The decisions of a sink that writes batches of events to a DuckDB table.
//!
//! The crate holds what the sink decides: where an endpoint points, which
//! batches become requests, in which order a batch is written, how a call is
//! answered and which failures are worth another attempt. Opening databases,
//! running transactions and waiting for them is left to the caller, who
//! performs the actions named here and hands the replies back.

pub mod database;
pub mod endpoint;
pub mod error;
pub mod isolation;
pub mod request;
pub mod response;
pub mod retry;
pub mod service;
mod text;
pub mod write;
