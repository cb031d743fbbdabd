//! Why a batch could not be written.

use vstd::prelude::*;

verus! {

/// `tokio::task::JoinError`: the reason why a spawned task did not return. Only
/// carried along.
#[verifier::external_type_specification]
#[verifier::external_body]
pub struct ExJoinError(tokio::task::JoinError);

/// Why a batch could not be written. `D` is the error of the database and `A`
/// the error of the serializer that encodes events to Arrow.
#[derive(Debug)]
pub enum DuckdbServiceError<D, A> {
    /// The database refused an operation.
    DuckDb { source: D },
    /// The events could not be encoded.
    ArrowEncoding { source: A },
    /// The task that wrote the batch did not return.
    Join { source: tokio::task::JoinError },
    /// A task panicked while it held the connection.
    MutexPoisoned,
    /// The batch has no size.
    EmptyPayload,
}

/// Whether `text` is what `value` displays as.
pub open spec fn displays_as<T: core::fmt::Display>(value: &T, text: Seq<char>) -> bool {
    exists|shown: String| #[trigger]
        vstd::string::to_string_from_display_ensures::<T>(value, shown) && shown@ == text
}

impl<D, A> DuckdbServiceError<D, A> {
    /// The text of the error, where its source, if it has one, displays as
    /// `source`.
    pub open spec fn message_spec(&self, source: Seq<char>) -> Seq<char> {
        match *self {
            DuckdbServiceError::DuckDb { .. } => "DuckDB error: "@ + source,
            DuckdbServiceError::ArrowEncoding { .. } => "Arrow encoding error: "@ + source,
            DuckdbServiceError::Join { .. } => "Task join error: "@ + source,
            DuckdbServiceError::MutexPoisoned => "Connection mutex poisoned"@,
            DuckdbServiceError::EmptyPayload => "Payload should never be zero length"@,
        }
    }

    /// The text of the error, given the text of its source. Errors without a
    /// source ignore `source`.
    pub fn message(&self, source: &str) -> (text: String)
        ensures
            text@ == self.message_spec(source@),
    {
        match self {
            DuckdbServiceError::DuckDb { .. } => "DuckDB error: ".to_string().concat(source),
            DuckdbServiceError::ArrowEncoding { .. } => {
                "Arrow encoding error: ".to_string().concat(source)
            },
            DuckdbServiceError::Join { .. } => "Task join error: ".to_string().concat(source),
            DuckdbServiceError::MutexPoisoned => "Connection mutex poisoned".to_string(),
            DuckdbServiceError::EmptyPayload => "Payload should never be zero length".to_string(),
        }
    }
}

impl<D: core::fmt::Display, A: core::fmt::Display> DuckdbServiceError<D, A> {
    /// Whether the source of the error, if it has one, displays as `source`.
    pub open spec fn source_displays_as(&self, source: Seq<char>) -> bool {
        match *self {
            DuckdbServiceError::DuckDb { source: error } => displays_as(&error, source),
            DuckdbServiceError::ArrowEncoding { source: error } => displays_as(&error, source),
            DuckdbServiceError::Join { source: error } => displays_as(&error, source),
            _ => true,
        }
    }

    /// The text of the error.
    pub fn to_string(&self) -> (text: String)
        ensures
            exists|source: Seq<char>|
                #![trigger self.source_displays_as(source)]
                self.source_displays_as(source) && text@ == self.message_spec(source),
    {
        let source = match self {
            DuckdbServiceError::DuckDb { source } => source.to_string(),
            DuckdbServiceError::ArrowEncoding { source } => source.to_string(),
            DuckdbServiceError::Join { source } => source.to_string(),
            _ => String::new(),
        };
        assert(self.source_displays_as(source@));
        self.message(source.as_str())
    }
}

/// The text of an error with a source is a fixed beginning and then the text of
/// the source, whole; the text of an error without one is fixed.
pub proof fn law_message_ends_with_its_source<D, A>(
    error: &DuckdbServiceError<D, A>,
    source: &str,
    text: String,
)
    requires
        call_ensures(DuckdbServiceError::<D, A>::message, (error, source), text),
    ensures
        error is DuckDb ==> text@ == "DuckDB error: "@ + source@,
        error is ArrowEncoding ==> text@ == "Arrow encoding error: "@ + source@,
        error is Join ==> text@ == "Task join error: "@ + source@,
        error is MutexPoisoned ==> text@ == "Connection mutex poisoned"@,
        error is EmptyPayload ==> text@ == "Payload should never be zero length"@,
{
}

/// An error shows itself as a fixed beginning and then what its source shows
/// itself as; an error without a source shows a fixed text.
pub proof fn law_error_shows_its_source<D: core::fmt::Display, A: core::fmt::Display>(
    error: &DuckdbServiceError<D, A>,
    text: String,
)
    requires
        call_ensures(DuckdbServiceError::<D, A>::to_string, (error,), text),
    ensures
        match *error {
            DuckdbServiceError::DuckDb { source } => exists|shown: String| #[trigger]
                vstd::string::to_string_from_display_ensures::<D>(&source, shown) && text@
                    == "DuckDB error: "@ + shown@,
            DuckdbServiceError::ArrowEncoding { source } => exists|shown: String| #[trigger]
                vstd::string::to_string_from_display_ensures::<A>(&source, shown) && text@
                    == "Arrow encoding error: "@ + shown@,
            DuckdbServiceError::Join { source } => exists|shown: String| #[trigger]
                vstd::string::to_string_from_display_ensures::<tokio::task::JoinError>(
                    &source,
                    shown,
                ) && text@ == "Task join error: "@ + shown@,
            DuckdbServiceError::MutexPoisoned => text@ == "Connection mutex poisoned"@,
            DuckdbServiceError::EmptyPayload => text@ == "Payload should never be zero length"@,
        },
{
}

} // verus!
