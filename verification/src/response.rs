//! Answers to requests that were written.

use crate::request::RequestMetadata;
use vstd::prelude::*;

verus! {

/// What became of the events of a request.
#[derive(Debug, Clone, Copy, PartialEq, Eq, Structural)]
pub enum EventStatus {
    /// Let go before delivery was tried.
    Dropped,
    /// Written.
    Delivered,
    /// Failed in a way that may pass.
    Errored,
    /// Failed for good.
    Rejected,
    /// Already reported.
    Recorded,
}

/// The answer to a request that was written.
#[derive(Debug)]
pub struct DuckdbResponse<G> {
    metadata: RequestMetadata<G>,
}

impl<G> DuckdbResponse<G> {
    /// What the pipeline reports of the request that was written.
    pub closed spec fn metadata(&self) -> RequestMetadata<G> {
        self.metadata
    }

    /// The answer to a request with this metadata.
    pub(crate) fn new(metadata: RequestMetadata<G>) -> (response: Self)
        ensures
            response.metadata() == metadata,
    {
        DuckdbResponse { metadata }
    }

    /// The events were delivered.
    pub fn event_status(&self) -> (status: EventStatus)
        ensures
            status == EventStatus::Delivered,
    {
        EventStatus::Delivered
    }

    /// The number of events and their estimated JSON size, as the pipeline
    /// groups them.
    pub fn events_sent(&self) -> (sent: &G)
        ensures
            *sent == self.metadata().events_estimated_json_encoded_byte_size,
    {
        &self.metadata.events_estimated_json_encoded_byte_size
    }

    /// The size of the request that was written.
    pub fn bytes_sent(&self) -> (size: Option<usize>)
        ensures
            size == Some(self.metadata().request_encoded_size),
    {
        Some(self.metadata.request_encoded_size)
    }
}

} // verus!
