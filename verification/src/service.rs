//! The service that writes requests: what a call needs, what follows from each
//! reply it waits for, and how it is answered.

use crate::error::DuckdbServiceError;
use crate::request::{DuckdbRequest, Event};
use crate::response::{DuckdbResponse, EventStatus};
use crate::retry::retriable;
use crate::write::{
    failure, first_done, fits, law_first_failure_decides, law_unfinished_write_had_no_failure,
    law_write_succeeds_exactly_if_all_is_done, lemma_run_cases, lemma_states_follow_replies,
    operations, run, step_after, step_at, WriteAction, WriteReply, WriteStep, WriteTransaction,
};
use std::sync::{Arc, Mutex};
use vstd::prelude::*;

verus! {

/// The protocol under which sent bytes are reported.
pub const DUCKDB_PROTOCOL: &'static str = "duckdb";

/// Makes another pointer to the same connection with `std::sync::Arc::clone`,
/// which returns a pointer to the value that the given one points to.
#[verifier::external_body]
fn share<C>(connection: &Arc<Mutex<C>>) -> (shared: Arc<Mutex<C>>)
    ensures
        shared == *connection,
{
    Arc::clone(connection)
}

/// A service that writes requests to one table through one connection. `C` is
/// the connection and `S` the serializer; both are only carried along.
#[verifier::reject_recursive_types(C)]
pub struct DuckdbService<C, S> {
    connection: Arc<Mutex<C>>,
    database: String,
    table: String,
    endpoint: String,
    serializer: S,
}

/// A call that waits for its events to be encoded.
#[verifier::reject_recursive_types(C)]
pub struct DuckdbCall<C, S, P, F, G> {
    pub connection: Arc<Mutex<C>>,
    pub database: String,
    pub table: String,
    pub endpoint: String,
    pub serializer: S,
    pub request: DuckdbRequest<P, F, G>,
}

/// A call that waits for its batch to be written.
pub struct PendingResponse<P, F, G> {
    pub endpoint: String,
    pub request: DuckdbRequest<P, F, G>,
}

/// A report that bytes were sent.
#[derive(Debug, Clone)]
pub struct EndpointBytesSent {
    pub byte_size: usize,
    pub protocol: &'static str,
    pub endpoint: String,
}

impl<C, S> DuckdbService<C, S> {
    /// The connection that is written through.
    pub closed spec fn connection(&self) -> Arc<Mutex<C>> {
        self.connection
    }

    /// The database that holds the table.
    pub closed spec fn database(&self) -> Seq<char> {
        self.database@
    }

    /// The table that is written to.
    pub closed spec fn table(&self) -> Seq<char> {
        self.table@
    }

    /// The endpoint under which sent bytes are reported.
    pub closed spec fn endpoint(&self) -> Seq<char> {
        self.endpoint@
    }

    /// What encodes the events.
    pub closed spec fn serializer(&self) -> S {
        self.serializer
    }

    /// A service of these parts.
    pub fn new(
        connection: Arc<Mutex<C>>,
        database: String,
        table: String,
        endpoint: String,
        serializer: S,
    ) -> (service: Self)
        ensures
            service.connection() == connection,
            service.database() == database@,
            service.table() == table@,
            service.endpoint() == endpoint@,
            service.serializer() == serializer,
    {
        DuckdbService { connection, database, table, endpoint, serializer }
    }

    /// The service is always ready for a call.
    pub fn poll_ready<D, A>(&mut self) -> (ready: Result<(), DuckdbServiceError<D, A>>)
        ensures
            ready == Ok::<(), DuckdbServiceError<D, A>>(()),
            *final(self) == *old(self),
    {
        Ok(())
    }
}

impl<C, S: Clone> Clone for DuckdbService<C, S> {
    /// Another service on the same connection.
    fn clone(&self) -> (copy: Self)
        ensures
            copy.connection() == self.connection(),
            copy.database() == self.database(),
            copy.table() == self.table(),
            copy.endpoint() == self.endpoint(),
            cloned(self.serializer(), copy.serializer()),
    {
        DuckdbService {
            connection: share(&self.connection),
            database: self.database.clone(),
            table: self.table.clone(),
            endpoint: self.endpoint.clone(),
            serializer: self.serializer.clone(),
        }
    }
}

impl<C, S: Clone> DuckdbService<C, S> {
    /// Whether `call` is a call of this service with this request: it holds the
    /// request and its own copy of everything else.
    pub open spec fn starts<P, F, G>(
        &self,
        request: DuckdbRequest<P, F, G>,
        call: DuckdbCall<C, S, P, F, G>,
    ) -> bool {
        &&& call.connection == self.connection()
        &&& call.database@ == self.database()
        &&& call.table@ == self.table()
        &&& call.endpoint@ == self.endpoint()
        &&& cloned(self.serializer(), call.serializer)
        &&& call.request == request
    }

    /// Starts a call. It takes the request and its own copy of everything else,
    /// so that the service is free for the next call.
    pub fn call<P, F, G>(&mut self, request: DuckdbRequest<P, F, G>) -> (call: DuckdbCall<
        C,
        S,
        P,
        F,
        G,
    >)
        ensures
            old(self).starts(request, call),
            *final(self) == *old(self),
    {
        DuckdbCall {
            connection: share(&self.connection),
            database: self.database.clone(),
            table: self.table.clone(),
            endpoint: self.endpoint.clone(),
            serializer: self.serializer.clone(),
            request,
        }
    }
}

impl<C, S, P, F, G> DuckdbCall<C, S, P, F, G> {
    /// Whether the call goes on so once its events are encoded: with a write of
    /// the encoded rows that is about to begin, and with its request waiting
    /// for the answer.
    pub open spec fn continues_with<R, D, A>(
        &self,
        record_batch: R,
        write: WriteTransaction<C, R, D, A>,
        pending: PendingResponse<P, F, G>,
    ) -> bool {
        &&& write.connection() == self.connection
        &&& write.database() == self.database@
        &&& write.table() == self.table@
        &&& write.record_batch() == record_batch
        &&& write.step() == WriteStep::<D, A>::Lock
        &&& pending.endpoint == self.endpoint
        &&& pending.request == self.request
    }

    /// Takes what the serializer made of the events. If it encoded them, the
    /// batch is to be written and the answer waits for that; if not, the call
    /// has failed.
    pub fn encoded<R, D, A>(self, encoded: Result<R, A>) -> (next: Result<
        (WriteTransaction<C, R, D, A>, PendingResponse<P, F, G>),
        DuckdbServiceError<D, A>,
    >)
        ensures
            match encoded {
                Ok(record_batch) => {
                    &&& next matches Ok((write, pending))
                    &&& self.continues_with(record_batch, write, pending)
                },
                Err(source) => {
                    &&& next matches Err(error)
                    &&& error == DuckdbServiceError::<D, A>::ArrowEncoding { source }
                },
            },
    {
        match encoded {
            Ok(record_batch) => {
                let write = WriteTransaction::new(
                    self.connection,
                    self.database,
                    self.table,
                    record_batch,
                );
                let pending = PendingResponse { endpoint: self.endpoint, request: self.request };
                Ok((write, pending))
            },
            Err(source) => Err(DuckdbServiceError::ArrowEncoding { source }),
        }
    }
}

/// How a call ends whose writing task was joined with this result: a lost task
/// is a failure of its own, and otherwise the end of the write decides.
pub open spec fn end_of_write<D, A>(
    joined: Result<Result<(), DuckdbServiceError<D, A>>, tokio::task::JoinError>,
) -> Result<(), DuckdbServiceError<D, A>> {
    match joined {
        Ok(end) => end,
        Err(source) => Err(DuckdbServiceError::Join { source }),
    }
}

impl<P, F, G> PendingResponse<P, F, G> {
    /// Whether a written batch is reported and answered so: with the size, the
    /// endpoint and the metadata of the request.
    pub open spec fn answered_by(
        &self,
        report: EndpointBytesSent,
        response: DuckdbResponse<G>,
    ) -> bool {
        &&& report.byte_size == self.request.metadata.request_encoded_size
        &&& report.protocol@ == "duckdb"@
        &&& report.endpoint == self.endpoint
        &&& response.metadata() == self.request.metadata
    }

    /// Takes what came of the task that wrote the batch. If the batch was
    /// written, the sent bytes are to be reported and the request is answered;
    /// if not, the call has failed.
    pub fn joined<D, A>(
        self,
        joined: Result<Result<(), DuckdbServiceError<D, A>>, tokio::task::JoinError>,
    ) -> (answer: Result<(EndpointBytesSent, DuckdbResponse<G>), DuckdbServiceError<D, A>>)
        ensures
            match end_of_write(joined) {
                Ok(()) => {
                    &&& answer matches Ok((report, response))
                    &&& self.answered_by(report, response)
                },
                Err(error) => answer == Err::<(EndpointBytesSent, DuckdbResponse<G>), _>(error),
            },
    {
        let end = match joined {
            Ok(end) => end,
            Err(source) => Err(DuckdbServiceError::Join { source }),
        };
        match end {
            Ok(()) => {
                let metadata = self.request.metadata;
                let report = EndpointBytesSent {
                    byte_size: metadata.request_encoded_size,
                    protocol: DUCKDB_PROTOCOL,
                    endpoint: self.endpoint,
                };
                Ok((report, DuckdbResponse::new(metadata)))
            },
            Err(error) => Err(error),
        }
    }
}

/// How a call ends, told from everything that it waits for: what the serializer
/// replied, what came of each operation of the write, and, where the writing
/// task was lost, why.
pub open spec fn end_of_call<R, D, A>(
    encoded: Result<R, A>,
    replies: Seq<WriteReply<D>>,
    lost: Option<tokio::task::JoinError>,
) -> Result<(), DuckdbServiceError<D, A>>
    recommends
        encoded is Ok && lost is None ==> run(WriteStep::<D, A>::Lock, replies) is Finished,
{
    match (encoded, lost, run(WriteStep::<D, A>::Lock, replies)) {
        (Err(source), _, _) => Err(DuckdbServiceError::ArrowEncoding { source }),
        (Ok(_), Some(source), _) => end_of_write(Err(source)),
        (Ok(_), None, WriteStep::Finished(end)) => end_of_write(Ok(end)),
        (Ok(_), None, _) => arbitrary(),
    }
}

/// A call is answered exactly if the events were encoded, the writing task
/// returned, and every operation of the write was done, the commit included.
pub proof fn law_call_succeeds_exactly_if_everything_did<R, D, A>(
    encoded: Result<R, A>,
    replies: Seq<WriteReply<D>>,
    lost: Option<tokio::task::JoinError>,
)
    requires
        encoded is Ok && lost is None ==> run(WriteStep::<D, A>::Lock, replies) is Finished,
    ensures
        end_of_call(encoded, replies, lost) is Ok <==> {
            &&& encoded is Ok
            &&& lost is None
            &&& replies.len() >= operations()
            &&& first_done(replies, operations())
        },
{
    law_write_succeeds_exactly_if_all_is_done::<D, A>(replies);
    if let WriteStep::Finished(Ok(unit)) = run(WriteStep::<D, A>::Lock, replies) {
        assert(unit == ());
    }
}

/// A call whose write has come to its end by these replies, and whose task
/// returned that end, ends so.
pub proof fn law_end_of_the_write_is_the_end_of_the_call<C, R, D, A>(
    record_batch: R,
    replies: Seq<WriteReply<D>>,
    write: WriteTransaction<C, R, D, A>,
    end: Result<(), DuckdbServiceError<D, A>>,
)
    requires
        write.step() == run(WriteStep::<D, A>::Lock, replies),
        write.step() == WriteStep::Finished(end),
    ensures
        end_of_call(Ok::<R, A>(record_batch), replies, None) == end_of_write(Ok(end)),
{
}

/// Events that cannot be encoded fail the call with the error of the
/// serializer, and the call is not tried again.
pub proof fn law_encoding_failure_is_not_retried<R, D, A>(
    source: A,
    replies: Seq<WriteReply<D>>,
    lost: Option<tokio::task::JoinError>,
)
    ensures
        end_of_call(Err::<R, A>(source), replies, lost) == Err::<(), DuckdbServiceError<D, A>>(
            DuckdbServiceError::ArrowEncoding { source },
        ),
        !retriable(DuckdbServiceError::<D, A>::ArrowEncoding { source }),
{
}

/// The first operation of the write that fails fails the call. The call is tried
/// again exactly if the reply was that the lock is poisoned, which fits none but
/// the first operation: errors of the database are final.
pub proof fn law_write_failure_is_retried_only_for_the_lock<R, D, A>(
    record_batch: R,
    replies: Seq<WriteReply<D>>,
    k: int,
)
    requires
        0 <= k < replies.len(),
        k < operations(),
        first_done(replies, k),
        !(replies[k] is Done),
    ensures
        end_of_call(Ok::<R, A>(record_batch), replies, None) == Err::<
            (),
            DuckdbServiceError<D, A>,
        >(failure::<D, A>(replies[k])),
        retriable(failure::<D, A>(replies[k])) <==> replies[k] is Poisoned,
        fits(step_at::<D, A>(k), replies[k]) ==> (retriable(failure::<D, A>(replies[k])) <==> k
            == 0),
{
    law_first_failure_decides::<D, A>(replies, k);
}

/// A lost writing task fails the call, and the call is tried again.
pub proof fn law_lost_task_is_retried<R, D, A>(
    record_batch: R,
    replies: Seq<WriteReply<D>>,
    source: tokio::task::JoinError,
)
    ensures
        end_of_call(Ok::<R, A>(record_batch), replies, Some(source)) == Err::<
            (),
            DuckdbServiceError<D, A>,
        >(DuckdbServiceError::Join { source }),
        retriable(DuckdbServiceError::<D, A>::Join { source }),
{
}

/// Whether a task that was lost after these replies was lost while it held the
/// lock of its connection: it had the lock, and its write had not ended.
pub open spec fn lost_with_the_lock<D, A>(replies: Seq<WriteReply<D>>) -> bool {
    &&& replies.len() > 0
    &&& replies[0] is Done
    &&& !(run(WriteStep::<D, A>::Lock, replies) is Finished)
}

/// Whether the lock of a later write replies as a mutex does that poisons: if an
/// earlier task was lost while it held the same lock, the lock is poisoned.
pub open spec fn lock_remembers<C, R, D, A>(
    earlier: WriteTransaction<C, R, D, A>,
    earlier_replies: Seq<WriteReply<D>>,
    later: WriteTransaction<C, R, D, A>,
    later_replies: Seq<WriteReply<D>>,
) -> bool {
    later.connection() == earlier.connection() && lost_with_the_lock::<D, A>(earlier_replies)
        ==> later_replies.len() > 0 && later_replies[0] is Poisoned
}

/// A task that is lost while it holds the lock of the connection fails its own
/// call as a lost task, before its commit was done. It also fails every later
/// call, of the same service or of any other on its connection such as a clone,
/// with a poisoned connection, provided that the events of that call can be
/// encoded. Either call is tried again.
pub proof fn law_task_lost_with_the_lock_fails_later_calls<C, S: Clone, P, F, G, R, D, A>(
    service: DuckdbService<C, S>,
    request: DuckdbRequest<P, F, G>,
    call: DuckdbCall<C, S, P, F, G>,
    rows: R,
    write: WriteTransaction<C, R, D, A>,
    pending: PendingResponse<P, F, G>,
    replies: Seq<WriteReply<D>>,
    source: tokio::task::JoinError,
    later_service: DuckdbService<C, S>,
    later_request: DuckdbRequest<P, F, G>,
    later_call: DuckdbCall<C, S, P, F, G>,
    later_rows: R,
    later_write: WriteTransaction<C, R, D, A>,
    later_pending: PendingResponse<P, F, G>,
    later_replies: Seq<WriteReply<D>>,
)
    requires
        later_service.connection() == service.connection(),
        service.starts(request, call),
        call.continues_with(rows, write, pending),
        lost_with_the_lock::<D, A>(replies),
        later_service.starts(later_request, later_call),
        later_call.continues_with(later_rows, later_write, later_pending),
        lock_remembers(write, replies, later_write, later_replies),
    ensures
        end_of_call(Ok::<R, A>(rows), replies, Some(source)) == Err::<
            (),
            DuckdbServiceError<D, A>,
        >(DuckdbServiceError::Join { source }),
        replies.len() < operations(),
        first_done(replies, operations()),
        end_of_call(Ok::<R, A>(later_rows), later_replies, None) == Err::<
            (),
            DuckdbServiceError<D, A>,
        >(DuckdbServiceError::MutexPoisoned),
        retriable(DuckdbServiceError::<D, A>::Join { source }),
        retriable(DuckdbServiceError::<D, A>::MutexPoisoned),
{
    law_unfinished_write_had_no_failure::<D, A>(replies);
    law_first_failure_decides::<D, A>(later_replies, 0);
}

/// Whatever a service writes goes to its own table: each operation of each of
/// its writes locks the connection of the service, names its table and its
/// database, and appends the rows that were encoded.
pub proof fn law_writes_go_to_the_table_of_the_service<C, S: Clone, P, F, G, R, D, A>(
    service: DuckdbService<C, S>,
    request: DuckdbRequest<P, F, G>,
    call: DuckdbCall<C, S, P, F, G>,
    rows: R,
    begun: WriteTransaction<C, R, D, A>,
    pending: PendingResponse<P, F, G>,
    write: WriteTransaction<C, R, D, A>,
    action: WriteAction<'_, C, R>,
)
    requires
        service.starts(request, call),
        call.continues_with(rows, begun, pending),
        write.same_work(begun),
        write.calls_for(Some(action)),
    ensures
        match action {
            WriteAction::Lock { connection } => *connection == service.connection(),
            WriteAction::OpenAppender { table, database } => table@ == service.table() && database@
                == service.database(),
            WriteAction::Append { record_batch } => *record_batch == rows,
            _ => true,
        },
{
}

/// What is reported and answered for a request is what its batch measured: the
/// reported bytes, the bytes of the response and the estimated size of the
/// batch are the same number. The bytes are reported under the endpoint of the
/// service.
pub proof fn law_sent_size_is_the_size_of_the_batch<C, S: Clone, P, F, G, R, D, A>(
    events: Seq<Event<P, F>>,
    grouped_size: G,
    events_size: usize,
    service: DuckdbService<C, S>,
    request: DuckdbRequest<P, F, G>,
    call: DuckdbCall<C, S, P, F, G>,
    rows: R,
    write: WriteTransaction<C, R, D, A>,
    pending: PendingResponse<P, F, G>,
    report: EndpointBytesSent,
    response: DuckdbResponse<G>,
)
    requires
        request.made_of(events, grouped_size, events_size),
        service.starts(request, call),
        call.continues_with(rows, write, pending),
        pending.answered_by(report, response),
    ensures
        report.byte_size == events_size,
        report.endpoint@ == service.endpoint(),
        response.metadata().request_encoded_size == events_size,
        response.metadata().events_estimated_json_encoded_byte_size == grouped_size,
{
}

/// A service is ready whenever it is asked, and asking changes nothing.
pub proof fn law_service_is_always_ready<C, S, D, A>(
    service: DuckdbService<C, S>,
    after: DuckdbService<C, S>,
    ready: Result<(), DuckdbServiceError<D, A>>,
)
    requires
        exists|asked: &mut DuckdbService<C, S>|
            *asked == service && *final(asked) == after && call_ensures(
                DuckdbService::<C, S>::poll_ready::<D, A>,
                (asked,),
                ready,
            ),
    ensures
        ready is Ok,
        after == service,
{
}

/// A call of a service, or of a clone of it, holds what the service was made of
/// and all of the request, and leaves the service as it was.
pub proof fn law_call_holds_what_the_service_was_made_of<C, S: Clone, P, F, G>(
    connection: Arc<Mutex<C>>,
    database: String,
    table: String,
    endpoint: String,
    serializer: S,
    service: DuckdbService<C, S>,
    caller: DuckdbService<C, S>,
    after: DuckdbService<C, S>,
    request: DuckdbRequest<P, F, G>,
    call: DuckdbCall<C, S, P, F, G>,
)
    requires
        call_ensures(
            DuckdbService::<C, S>::new,
            (connection, database, table, endpoint, serializer),
            service,
        ),
        caller == service || call_ensures(DuckdbService::<C, S>::clone, (&service,), caller),
        exists|called: &mut DuckdbService<C, S>|
            *called == caller && *final(called) == after && call_ensures(
                DuckdbService::<C, S>::call::<P, F, G>,
                (called, request),
                call,
            ),
    ensures
        call.connection == connection,
        call.database@ == database@,
        call.table@ == table@,
        call.endpoint@ == endpoint@,
        caller == service ==> cloned(serializer, call.serializer),
        caller == service || exists|copy: S|
            cloned(serializer, copy) && #[trigger] cloned(copy, call.serializer),
        call.request.events@ == request.events@,
        call.request.finalizers@ == request.finalizers@,
        call.request.metadata == request.metadata,
        after == caller,
{
    if caller != service {
        assert(cloned(serializer, caller.serializer()));
        assert(cloned(caller.serializer(), call.serializer));
    }
}

/// What a call gives the serializer is the whole batch that its request was made
/// of: every payload, in its place, however many there are.
pub proof fn law_call_encodes_its_whole_batch<C, S: Clone, P, F, G, D, A>(
    events: Vec<Event<P, F>>,
    grouped_size: G,
    events_size: usize,
    request: DuckdbRequest<P, F, G>,
    service: DuckdbService<C, S>,
    call: DuckdbCall<C, S, P, F, G>,
)
    requires
        call_ensures(
            DuckdbRequest::<P, F, G>::try_from::<D, A>,
            (events, grouped_size, events_size),
            Ok(request),
        ),
        exists|called: &mut DuckdbService<C, S>|
            *called == service && call_ensures(
                DuckdbService::<C, S>::call::<P, F, G>,
                (called, request),
                call,
            ),
    ensures
        call.request.events@.len() == events@.len(),
        forall|i: int|
            0 <= i < events@.len() ==> (#[trigger] call.request.events@[i]).payload
                == events@[i].payload,
{
    assert forall|i: int| 0 <= i < events@.len() implies (
    #[trigger] call.request.events@[i]).payload == events@[i].payload by {
        assert(call.request.events@[i] == request.events@[i]);
    }
}

/// The same of a request that is said to be made of a batch and a call that is
/// said to be started with it.
pub proof fn law_started_call_encodes_the_batch<C, S: Clone, P, F, G>(
    events: Seq<Event<P, F>>,
    grouped_size: G,
    events_size: usize,
    request: DuckdbRequest<P, F, G>,
    service: DuckdbService<C, S>,
    call: DuckdbCall<C, S, P, F, G>,
)
    requires
        request.made_of(events, grouped_size, events_size),
        service.starts(request, call),
    ensures
        call.request.events@.len() == events.len(),
        forall|i: int|
            0 <= i < events.len() ==> (#[trigger] call.request.events@[i]).payload
                == events[i].payload,
        call.request.finalizers@ == request.finalizers@,
{
    assert forall|i: int| 0 <= i < events.len() implies (
    #[trigger] call.request.events@[i]).payload == events[i].payload by {
        assert(call.request.events@[i] == request.events@[i]);
    }
}

/// Events that cannot be encoded fail the call with the error of the serializer;
/// nothing is left to be written.
pub proof fn law_encoding_failure_ends_the_call<C, S, P, F, G, R, D, A>(
    call: DuckdbCall<C, S, P, F, G>,
    encoded: Result<R, A>,
    next: Result<
        (WriteTransaction<C, R, D, A>, PendingResponse<P, F, G>),
        DuckdbServiceError<D, A>,
    >,
)
    requires
        call_ensures(
            DuckdbCall::<C, S, P, F, G>::encoded::<R, D, A>,
            (call, encoded),
            next,
        ),
    ensures
        next is Ok <==> encoded is Ok,
        encoded matches Err(failure) ==> (next matches Err(
            DuckdbServiceError::ArrowEncoding { source },
        ) && source == failure),
{
}

/// The write that a call goes on with is a new one, of the encoded rows to the
/// table of the call: it has had no reply, whatever the request holds.
pub proof fn law_encoded_batch_is_a_new_write<'a, C, S, P, F, G, R, D, A>(
    call: DuckdbCall<C, S, P, F, G>,
    rows: R,
    begun: WriteTransaction<C, R, D, A>,
    pending: PendingResponse<P, F, G>,
    fresh: WriteTransaction<C, R, D, A>,
    write: &'a WriteTransaction<C, R, D, A>,
    action: Option<WriteAction<'a, C, R>>,
    end: Option<Result<(), DuckdbServiceError<D, A>>>,
)
    requires
        call_ensures(
            DuckdbCall::<C, S, P, F, G>::encoded::<R, D, A>,
            (call, Ok(rows)),
            Ok((begun, pending)),
        ),
        call_ensures(
            WriteTransaction::<C, R, D, A>::new,
            (call.connection, call.database, call.table, rows),
            fresh,
        ),
        *write == begun,
        call_ensures(WriteTransaction::<C, R, D, A>::action, (write,), action),
        call_ensures(WriteTransaction::<C, R, D, A>::into_result, (begun,), end),
    ensures
        begun.step() == fresh.step(),
        begun.step() == run(WriteStep::<D, A>::Lock, Seq::<WriteReply<D>>::empty()),
        begun.connection() == fresh.connection(),
        begun.database() == fresh.database(),
        begun.table() == fresh.table(),
        begun.record_batch() == fresh.record_batch(),
        action matches Some(WriteAction::Lock { connection }) && *connection == call.connection,
        end is None,
        pending.endpoint@ == call.endpoint@,
        pending.request.events@ == call.request.events@,
        pending.request.finalizers@ == call.request.finalizers@,
        pending.request.metadata == call.request.metadata,
{
}

/// The same of a call that is said to continue with a write.
pub proof fn law_continued_call_has_had_no_reply<C, S, P, F, G, R, D, A>(
    call: DuckdbCall<C, S, P, F, G>,
    rows: R,
    write: WriteTransaction<C, R, D, A>,
    pending: PendingResponse<P, F, G>,
)
    requires
        call.continues_with(rows, write, pending),
    ensures
        write.step() == run(WriteStep::<D, A>::Lock, Seq::<WriteReply<D>>::empty()),
        write.connection() == call.connection,
        write.database() == call.database@,
        write.table() == call.table@,
        write.record_batch() == rows,
        pending.endpoint@ == call.endpoint@,
        pending.request.events@ == call.request.events@,
        pending.request.finalizers@ == call.request.finalizers@,
        pending.request.metadata == call.request.metadata,
{
}

/// A call that is encoded, written and joined is answered exactly if the write
/// that it was handed took six replies and each was that the operation was done;
/// this holds of every batch. Otherwise it fails with the first failure. What it
/// is answered with are the size and the metadata of the request, reported for
/// the endpoint of the call under the protocol `duckdb`.
pub proof fn law_call_is_answered_exactly_if_its_write_was_done<C, S, P, F, G, R, D, A>(
    call: DuckdbCall<C, S, P, F, G>,
    rows: R,
    pending: PendingResponse<P, F, G>,
    states: Seq<WriteTransaction<C, R, D, A>>,
    replies: Seq<WriteReply<D>>,
    end: Result<(), DuckdbServiceError<D, A>>,
    answer: Result<(EndpointBytesSent, DuckdbResponse<G>), DuckdbServiceError<D, A>>,
)
    requires
        states.len() == replies.len() + 1,
        call_ensures(
            DuckdbCall::<C, S, P, F, G>::encoded::<R, D, A>,
            (call, Ok(rows)),
            Ok((states[0], pending)),
        ),
        forall|i: int|
            #![trigger replies[i]]
            0 <= i < replies.len() ==> exists|write: &mut WriteTransaction<C, R, D, A>|
                *write == states[i] && *final(write) == states[i + 1] && call_ensures(
                    WriteTransaction::<C, R, D, A>::advance,
                    (write, replies[i]),
                    (),
                ),
        call_ensures(
            WriteTransaction::<C, R, D, A>::into_result,
            (states[replies.len() as int],),
            Some(end),
        ),
        call_ensures(
            PendingResponse::<P, F, G>::joined::<D, A>,
            (pending, Ok(end)),
            answer,
        ),
    ensures
        answer is Ok <==> (replies.len() >= 6 && forall|i: int|
            0 <= i < 6 ==> #[trigger] replies[i] is Done),
        forall|k: int|
            0 <= k < 6 && k < replies.len() && !(#[trigger] replies[k] is Done) && (forall|i: int|
                0 <= i < k ==> #[trigger] replies[i] is Done) ==> match replies[k] {
                WriteReply::Failed { source: refused } => answer matches Err(
                    DuckdbServiceError::DuckDb { source },
                ) && source == refused,
                _ => answer matches Err(DuckdbServiceError::MutexPoisoned),
            },
        answer matches Ok((report, response)) ==> {
            &&& report.byte_size == call.request.metadata.request_encoded_size
            &&& report.protocol@ == "duckdb"@
            &&& report.endpoint@ == call.endpoint@
            &&& response.metadata() == call.request.metadata
        },
{
    assert forall|i: int| #![trigger replies[i]] 0 <= i < replies.len() implies states[i + 1].step()
        == step_after(states[i].step(), replies[i]) && states[i + 1].same_work(states[i]) by {}
    lemma_states_follow_replies(states, replies, replies.len() as int);
    assert(replies.take(replies.len() as int) =~= replies);
    lemma_run_cases::<D, A>(replies);
    if replies.len() >= 6 && (forall|i: int| 0 <= i < 6 ==> #[trigger] replies[i] is Done) {
        assert(first_done(replies, operations()));
    }
    assert forall|k: int|
        0 <= k < 6 && k < replies.len() && !(#[trigger] replies[k] is Done) && (forall|i: int|
            0 <= i < k ==> #[trigger] replies[i] is Done) implies match replies[k] {
        WriteReply::Failed { source: refused } => answer matches Err(
            DuckdbServiceError::DuckDb { source },
        ) && source == refused,
        _ => answer matches Err(DuckdbServiceError::MutexPoisoned),
    } by {
        law_first_failure_decides::<D, A>(replies, k);
    }
}

/// A lost task fails the call with the reason for which it was lost, and a task
/// that returned fails it with the error that it returned.
pub proof fn law_joined_failure_fails_the_call<P, F, G, D, A>(
    pending: PendingResponse<P, F, G>,
    joined: Result<Result<(), DuckdbServiceError<D, A>>, tokio::task::JoinError>,
    answer: Result<(EndpointBytesSent, DuckdbResponse<G>), DuckdbServiceError<D, A>>,
)
    requires
        call_ensures(PendingResponse::<P, F, G>::joined::<D, A>, (pending, joined), answer),
    ensures
        match joined {
            Err(lost) => answer matches Err(DuckdbServiceError::Join { source }) && source == lost,
            Ok(Err(failure)) => answer matches Err(error) && error == failure,
            Ok(Ok(_)) => answer is Ok,
        },
{
}

/// Whatever the endpoint and the request, sent bytes are reported under the
/// protocol `duckdb`, with the size of the request and for its endpoint.
pub proof fn law_bytes_are_reported_under_duckdb<P, F, G>(
    pending: PendingResponse<P, F, G>,
    report: EndpointBytesSent,
    response: DuckdbResponse<G>,
)
    requires
        pending.answered_by(report, response),
    ensures
        report.protocol@ == seq!['d', 'u', 'c', 'k', 'd', 'b'],
        report.endpoint@ == pending.endpoint@,
        report.byte_size == pending.request.metadata.request_encoded_size,
        response.metadata() == pending.request.metadata,
{
    reveal_strlit("duckdb");
    assert(report.protocol@ =~= seq!['d', 'u', 'c', 'k', 'd', 'b']);
}

/// From the batch to the answer: what a call of a service reports and what its
/// response tells are the figures that the batch was measured with, the endpoint
/// that the service was made with and the protocol `duckdb`, and the events were
/// delivered.
pub proof fn law_answer_tells_what_the_batch_measured<C, S: Clone, P, F, G, R, D, A>(
    events: Vec<Event<P, F>>,
    grouped_size: G,
    events_size: usize,
    request: DuckdbRequest<P, F, G>,
    connection: Arc<Mutex<C>>,
    database: String,
    table: String,
    endpoint: String,
    serializer: S,
    service: DuckdbService<C, S>,
    call: DuckdbCall<C, S, P, F, G>,
    rows: R,
    write: WriteTransaction<C, R, D, A>,
    pending: PendingResponse<P, F, G>,
    joined: Result<Result<(), DuckdbServiceError<D, A>>, tokio::task::JoinError>,
    report: EndpointBytesSent,
    response: DuckdbResponse<G>,
    status: EventStatus,
    events_sent: &G,
    bytes_sent: Option<usize>,
)
    requires
        call_ensures(
            DuckdbRequest::<P, F, G>::try_from::<D, A>,
            (events, grouped_size, events_size),
            Ok(request),
        ),
        call_ensures(
            DuckdbService::<C, S>::new,
            (connection, database, table, endpoint, serializer),
            service,
        ),
        exists|called: &mut DuckdbService<C, S>|
            *called == service && call_ensures(
                DuckdbService::<C, S>::call::<P, F, G>,
                (called, request),
                call,
            ),
        call_ensures(
            DuckdbCall::<C, S, P, F, G>::encoded::<R, D, A>,
            (call, Ok(rows)),
            Ok((write, pending)),
        ),
        call_ensures(
            PendingResponse::<P, F, G>::joined::<D, A>,
            (pending, joined),
            Ok((report, response)),
        ),
        call_ensures(DuckdbResponse::<G>::event_status, (&response,), status),
        call_ensures(DuckdbResponse::<G>::events_sent, (&response,), events_sent),
        call_ensures(DuckdbResponse::<G>::bytes_sent, (&response,), bytes_sent),
    ensures
        write.connection() == connection,
        write.database() == database@,
        write.table() == table@,
        write.record_batch() == rows,
        joined matches Ok(end) && end is Ok,
        report.byte_size == events_size,
        report.protocol@ == "duckdb"@,
        report.endpoint@ == endpoint@,
        status == EventStatus::Delivered,
        *events_sent == grouped_size,
        bytes_sent == Some(events_size),
{
}

} // verus!
