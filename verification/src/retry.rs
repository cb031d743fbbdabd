//! Which failures are worth another attempt.

use crate::error::DuckdbServiceError;
use vstd::prelude::*;

verus! {

/// Decides whether a failed request is tried again.
#[derive(Debug, Clone, Copy)]
pub struct DuckdbRetryLogic;

/// Writes are local and synchronous, and most failures come from the data, the
/// schema or the database and would come again. What may pass is the loss of
/// the writing task and a poisoned connection.
pub open spec fn retriable<D, A>(error: DuckdbServiceError<D, A>) -> bool {
    error is Join || error is MutexPoisoned
}

impl DuckdbRetryLogic {
    /// Whether a request that failed with `error` is worth another attempt.
    pub fn is_retriable_error<D, A>(&self, error: &DuckdbServiceError<D, A>) -> (again: bool)
        ensures
            again == retriable(*error),
    {
        matches!(
            error,
            DuckdbServiceError::Join { .. } | DuckdbServiceError::MutexPoisoned
        )
    }
}

/// Another attempt is made after a lost task and a poisoned connection, and
/// after no error of the data, the schema or the database.
pub proof fn law_only_what_may_pass_is_retried<D, A>(
    logic: &DuckdbRetryLogic,
    error: &DuckdbServiceError<D, A>,
    again: bool,
)
    requires
        call_ensures(DuckdbRetryLogic::is_retriable_error::<D, A>, (logic, error), again),
    ensures
        again == match *error {
            DuckdbServiceError::DuckDb { .. } => false,
            DuckdbServiceError::ArrowEncoding { .. } => false,
            DuckdbServiceError::EmptyPayload => false,
            DuckdbServiceError::Join { .. } => true,
            DuckdbServiceError::MutexPoisoned => true,
        },
{
}

} // verus!
