//! The order in which a batch is written: under the lock of the connection, in
//! one transaction, with the commit last.

use crate::error::DuckdbServiceError;
use std::sync::{Arc, Mutex};
use vstd::prelude::*;

verus! {

/// `std::sync::Mutex`: the lock round a connection. Only carried along.
#[verifier::external_type_specification]
#[verifier::external_body]
#[verifier::reject_recursive_types(T)]
pub struct ExMutex<T: ?Sized>(Mutex<T>);

/// How far a write has come: the operation that is due, or how the write ended.
#[derive(Debug)]
pub enum WriteStep<D, A> {
    Lock,
    Begin,
    OpenAppender,
    Append,
    Flush,
    Commit,
    Finished(Result<(), DuckdbServiceError<D, A>>),
}

/// What came of an operation.
#[derive(Debug)]
pub enum WriteReply<D> {
    /// It was done.
    Done,
    /// The lock is poisoned.
    Poisoned,
    /// The database refused it.
    Failed { source: D },
}

/// An operation to perform, with all that it needs.
#[verifier::reject_recursive_types(C)]
pub enum WriteAction<'a, C, R> {
    /// Lock the connection.
    Lock { connection: &'a Arc<Mutex<C>> },
    /// Begin a transaction.
    Begin,
    /// Open an appender, in the transaction, to this table of this database.
    OpenAppender { table: &'a str, database: &'a str },
    /// Append these rows.
    Append { record_batch: &'a R },
    /// Flush the appender.
    Flush,
    /// Close the appender and commit the transaction.
    Commit,
}

/// A write of one batch to one table. `C` is the connection, `R` the encoded
/// batch; both are only carried along.
#[verifier::reject_recursive_types(C)]
pub struct WriteTransaction<C, R, D, A> {
    connection: Arc<Mutex<C>>,
    database: String,
    table: String,
    record_batch: R,
    step: WriteStep<D, A>,
}

/// The step that follows `step` once its operation is done.
pub open spec fn next_step<D, A>(step: WriteStep<D, A>) -> WriteStep<D, A> {
    match step {
        WriteStep::Lock => WriteStep::Begin,
        WriteStep::Begin => WriteStep::OpenAppender,
        WriteStep::OpenAppender => WriteStep::Append,
        WriteStep::Append => WriteStep::Flush,
        WriteStep::Flush => WriteStep::Commit,
        WriteStep::Commit => WriteStep::Finished(Ok(())),
        WriteStep::Finished(end) => WriteStep::Finished(end),
    }
}

/// Whether a reply can come of the operation that is due: only the lock can be
/// poisoned, and only what the database is asked to do can fail there.
pub open spec fn fits<D, A>(step: WriteStep<D, A>, reply: WriteReply<D>) -> bool {
    match reply {
        WriteReply::Done => true,
        WriteReply::Poisoned => step is Lock,
        WriteReply::Failed { .. } => !(step is Lock) && !(step is Finished),
    }
}

/// The step after a reply: the next one if the operation was done, or else the
/// end of the write. A write that has ended stays as it ended.
pub open spec fn step_after<D, A>(step: WriteStep<D, A>, reply: WriteReply<D>) -> WriteStep<D, A> {
    match (step, reply) {
        (WriteStep::Finished(end), _) => WriteStep::Finished(end),
        (_, WriteReply::Done) => next_step(step),
        (_, WriteReply::Poisoned) => WriteStep::Finished(Err(DuckdbServiceError::MutexPoisoned)),
        (_, WriteReply::Failed { source }) => WriteStep::Finished(
            Err(DuckdbServiceError::DuckDb { source }),
        ),
    }
}

impl<C, R, D, A> WriteTransaction<C, R, D, A> {
    /// The connection that is written through.
    pub closed spec fn connection(&self) -> Arc<Mutex<C>> {
        self.connection
    }

    /// The database that holds the table.
    pub closed spec fn database(&self) -> Seq<char> {
        self.database@
    }

    /// The table that is written to.
    pub closed spec fn table(&self) -> Seq<char> {
        self.table@
    }

    /// The rows that are written.
    pub closed spec fn record_batch(&self) -> R {
        self.record_batch
    }

    /// How far the write has come.
    pub closed spec fn step(&self) -> WriteStep<D, A> {
        self.step
    }

    /// Whether `action` is what the write waits for: the operation that is due,
    /// with what it needs, or nothing once the write has ended.
    pub open spec fn calls_for(&self, action: Option<WriteAction<'_, C, R>>) -> bool {
        match (self.step(), action) {
            (WriteStep::Lock, Some(WriteAction::Lock { connection })) => *connection
                == self.connection(),
            (WriteStep::Begin, Some(WriteAction::Begin)) => true,
            (WriteStep::OpenAppender, Some(WriteAction::OpenAppender { table, database })) => table@
                == self.table() && database@ == self.database(),
            (WriteStep::Append, Some(WriteAction::Append { record_batch })) => *record_batch
                == self.record_batch(),
            (WriteStep::Flush, Some(WriteAction::Flush)) => true,
            (WriteStep::Commit, Some(WriteAction::Commit)) => true,
            (WriteStep::Finished(_), None) => true,
            _ => false,
        }
    }

    /// Whether both are writes of the same rows to the same table through the
    /// same connection, however far each has come.
    pub open spec fn same_work(&self, other: Self) -> bool {
        &&& self.connection() == other.connection()
        &&& self.database() == other.database()
        &&& self.table() == other.table()
        &&& self.record_batch() == other.record_batch()
    }

    /// A write that is about to begin.
    pub fn new(
        connection: Arc<Mutex<C>>,
        database: String,
        table: String,
        record_batch: R,
    ) -> (write: Self)
        ensures
            write.connection() == connection,
            write.database() == database@,
            write.table() == table@,
            write.record_batch() == record_batch,
            write.step() == WriteStep::<D, A>::Lock,
    {
        WriteTransaction { connection, database, table, record_batch, step: WriteStep::Lock }
    }

    /// The operation that is due, or `None` once the write has ended.
    pub fn action(&self) -> (action: Option<WriteAction<'_, C, R>>)
        ensures
            self.calls_for(action),
    {
        match self.step {
            WriteStep::Lock => Some(WriteAction::Lock { connection: &self.connection }),
            WriteStep::Begin => Some(WriteAction::Begin),
            WriteStep::OpenAppender => Some(
                WriteAction::OpenAppender {
                    table: self.table.as_str(),
                    database: self.database.as_str(),
                },
            ),
            WriteStep::Append => Some(WriteAction::Append { record_batch: &self.record_batch }),
            WriteStep::Flush => Some(WriteAction::Flush),
            WriteStep::Commit => Some(WriteAction::Commit),
            WriteStep::Finished(_) => None,
        }
    }

    /// Takes what came of the operation that was due.
    pub fn advance(&mut self, reply: WriteReply<D>)
        ensures
            final(self).step() == step_after(old(self).step(), reply),
            final(self).same_work(*old(self)),
    {
        let next = match (&self.step, reply) {
            (WriteStep::Finished(_), _) => {
                return;
            },
            (_, WriteReply::Poisoned) => WriteStep::Finished(
                Err(DuckdbServiceError::MutexPoisoned),
            ),
            (_, WriteReply::Failed { source }) => WriteStep::Finished(
                Err(DuckdbServiceError::DuckDb { source }),
            ),
            (WriteStep::Lock, WriteReply::Done) => WriteStep::Begin,
            (WriteStep::Begin, WriteReply::Done) => WriteStep::OpenAppender,
            (WriteStep::OpenAppender, WriteReply::Done) => WriteStep::Append,
            (WriteStep::Append, WriteReply::Done) => WriteStep::Flush,
            (WriteStep::Flush, WriteReply::Done) => WriteStep::Commit,
            (WriteStep::Commit, WriteReply::Done) => WriteStep::Finished(Ok(())),
        };
        self.step = next;
    }

    /// How the write ended, or `None` while an operation is due.
    pub fn into_result(self) -> (end: Option<Result<(), DuckdbServiceError<D, A>>>)
        ensures
            end == match self.step() {
                WriteStep::Finished(result) => Some(result),
                _ => None,
            },
    {
        match self.step {
            WriteStep::Finished(result) => Some(result),
            _ => None,
        }
    }
}

/// The step that a write has reached from `step` after these replies.
pub open spec fn run<D, A>(step: WriteStep<D, A>, replies: Seq<WriteReply<D>>) -> WriteStep<D, A>
    decreases replies.len(),
{
    if replies.len() == 0 {
        step
    } else {
        step_after(run(step, replies.drop_last()), replies.last())
    }
}

/// Whether none of the first `n` operations that were replied to failed. An
/// operation without a reply yet is passed over.
pub open spec fn first_done<D>(replies: Seq<WriteReply<D>>, n: int) -> bool {
    forall|i: int| 0 <= i < n && i < replies.len() ==> #[trigger] replies[i] is Done
}

/// The number of operations of a write.
pub open spec fn operations() -> int {
    6
}

/// The step of a write after its first `n` operations were done.
pub open spec fn step_at<D, A>(n: int) -> WriteStep<D, A> {
    if n <= 0 {
        WriteStep::Lock
    } else if n == 1 {
        WriteStep::Begin
    } else if n == 2 {
        WriteStep::OpenAppender
    } else if n == 3 {
        WriteStep::Append
    } else if n == 4 {
        WriteStep::Flush
    } else if n == 5 {
        WriteStep::Commit
    } else {
        WriteStep::Finished(Ok(()))
    }
}

/// The error with which a failed operation ends a write.
pub open spec fn failure<D, A>(reply: WriteReply<D>) -> DuckdbServiceError<D, A>
    recommends
        !(reply is Done),
{
    match reply {
        WriteReply::Failed { source } => DuckdbServiceError::DuckDb { source },
        _ => DuckdbServiceError::MutexPoisoned,
    }
}

/// Whether each reply that the write still takes can come of its operation.
pub open spec fn all_fit<D, A>(replies: Seq<WriteReply<D>>) -> bool {
    forall|i: int|
        0 <= i < operations() && i < replies.len() ==> fits(
            step_at::<D, A>(i),
            #[trigger] replies[i],
        )
}

/// One reply more takes a write one step further: a write that has come to a
/// step by some replies, and then takes another, has come to its step by all of
/// them.
pub proof fn law_one_reply_more_is_one_step_more<D, A>(
    step: WriteStep<D, A>,
    replies: Seq<WriteReply<D>>,
    reply: WriteReply<D>,
)
    ensures
        run(step, replies.push(reply)) == step_after(run(step, replies), reply),
{
    assert(replies.push(reply).drop_last() =~= replies);
}

/// While every operation is done, a write goes through its steps in order.
pub proof fn law_steps_follow_in_order<D, A>(replies: Seq<WriteReply<D>>)
    requires
        first_done(replies, replies.len() as int),
    ensures
        run(WriteStep::<D, A>::Lock, replies) == step_at::<D, A>(replies.len() as int),
    decreases replies.len(),
{
    if replies.len() > 0 {
        let rest = replies.drop_last();
        assert forall|i: int| 0 <= i < rest.len() implies #[trigger] rest[i] is Done by {
            assert(rest[i] == replies[i]);
        }
        law_steps_follow_in_order::<D, A>(rest);
        assert(replies[replies.len() - 1] is Done);
    }
}

/// A write that has ended stays as it ended.
pub proof fn law_end_is_final<D, A>(
    end: Result<(), DuckdbServiceError<D, A>>,
    replies: Seq<WriteReply<D>>,
)
    ensures
        run(WriteStep::Finished(end), replies) == WriteStep::Finished(end),
    decreases replies.len(),
{
    if replies.len() > 0 {
        law_end_is_final(end, replies.drop_last());
    }
}

/// The first operation that fails decides the error, whatever is replied
/// afterwards.
pub proof fn law_first_failure_decides<D, A>(replies: Seq<WriteReply<D>>, k: int)
    requires
        0 <= k < replies.len(),
        k < operations(),
        first_done(replies, k),
        !(replies[k] is Done),
    ensures
        run(WriteStep::<D, A>::Lock, replies) == WriteStep::<D, A>::Finished(
            Err(failure::<D, A>(replies[k])),
        ),
    decreases replies.len(),
{
    let rest = replies.drop_last();
    assert forall|i: int| 0 <= i < k && i < rest.len() implies #[trigger] rest[i] is Done by {
        assert(rest[i] == replies[i]);
    }
    if k < rest.len() {
        assert(rest[k] == replies[k]);
        law_first_failure_decides::<D, A>(rest, k);
    } else {
        law_steps_follow_in_order::<D, A>(rest);
    }
}

/// Where the write stands after any replies: in the middle while all operations
/// were done, committed once all six were, and failed with the first failure
/// otherwise.
pub(crate) proof fn lemma_run_cases<D, A>(replies: Seq<WriteReply<D>>)
    ensures
        first_done(replies, operations()) ==> run(WriteStep::<D, A>::Lock, replies) == step_at::<
            D,
            A,
        >(replies.len() as int),
        !first_done(replies, operations()) ==> (run(WriteStep::<D, A>::Lock, replies)
            matches WriteStep::Finished(end) && end is Err),
    decreases replies.len(),
{
    if replies.len() > 0 {
        let rest = replies.drop_last();
        lemma_run_cases::<D, A>(rest);
        if first_done(replies, operations()) {
            assert forall|i: int| 0 <= i < operations() && i < rest.len() implies
                #[trigger] rest[i] is Done by {
                assert(rest[i] == replies[i]);
            }
            if replies.len() <= operations() {
                assert(replies[replies.len() - 1] is Done);
            }
        } else if first_done(rest, operations()) {
            let i = choose|i: int|
                0 <= i < operations() && i < replies.len() && !(#[trigger] replies[i] is Done);
            if i < rest.len() {
                assert(rest[i] == replies[i]);
            }
            assert(run(WriteStep::<D, A>::Lock, replies) == WriteStep::<D, A>::Finished(
                Err(failure::<D, A>(replies.last())),
            ));
        }
    }
}

/// A write succeeds exactly if all of its operations were done.
pub proof fn law_write_succeeds_exactly_if_all_is_done<D, A>(replies: Seq<WriteReply<D>>)
    ensures
        run(WriteStep::<D, A>::Lock, replies) == WriteStep::<D, A>::Finished(Ok(())) <==> (
        replies.len() >= operations() && first_done(replies, operations())),
{
    lemma_run_cases::<D, A>(replies);
}

/// The commit is due exactly after everything before it was done: no failed
/// write is ever committed, and none is committed twice.
pub proof fn law_commit_is_due_only_after_all_else<D, A>(replies: Seq<WriteReply<D>>)
    ensures
        run(WriteStep::<D, A>::Lock, replies) == WriteStep::<D, A>::Commit <==> (replies.len()
            == operations() - 1 && first_done(replies, operations())),
{
    lemma_run_cases::<D, A>(replies);
}

/// A write ends after at most as many replies as it has operations.
pub proof fn law_write_ends<D, A>(replies: Seq<WriteReply<D>>)
    requires
        replies.len() >= operations(),
    ensures
        run(WriteStep::<D, A>::Lock, replies) is Finished,
{
    lemma_run_cases::<D, A>(replies);
}

/// A write that has not ended had every operation done so far, and its commit
/// was not done.
pub proof fn law_unfinished_write_had_no_failure<D, A>(replies: Seq<WriteReply<D>>)
    requires
        !(run(WriteStep::<D, A>::Lock, replies) is Finished),
    ensures
        replies.len() < operations(),
        first_done(replies, operations()),
{
    lemma_run_cases::<D, A>(replies);
}

/// Where every reply fits its operation, a write ends with a poisoned
/// connection exactly if the lock, its first operation, found it so.
pub proof fn law_write_ends_poisoned_exactly_by_the_lock<D, A>(replies: Seq<WriteReply<D>>)
    requires
        all_fit::<D, A>(replies),
    ensures
        run(WriteStep::<D, A>::Lock, replies) == WriteStep::<D, A>::Finished(
            Err(DuckdbServiceError::MutexPoisoned),
        ) <==> (replies.len() > 0 && replies[0] is Poisoned),
    decreases replies.len(),
{
    if replies.len() > 0 {
        let rest = replies.drop_last();
        assert forall|i: int| 0 <= i < operations() && i < rest.len() implies fits(
            step_at::<D, A>(i),
            #[trigger] rest[i],
        ) by {
            assert(rest[i] == replies[i]);
        }
        law_write_ends_poisoned_exactly_by_the_lock::<D, A>(rest);
        lemma_run_cases::<D, A>(rest);
        assert(rest.len() > 0 ==> rest[0] == replies[0]);
        let last = replies.len() - 1;
        if last < operations() {
            assert(fits(step_at::<D, A>(last), replies[last]));
        }
    }
}

/// A write never ends in an encoding error, a lost task or an empty batch:
/// those come up outside of it.
pub proof fn law_write_fails_only_by_lock_or_database<D, A>(replies: Seq<WriteReply<D>>)
    ensures
        run(WriteStep::<D, A>::Lock, replies) matches WriteStep::Finished(Err(error)) ==> (
        error is MutexPoisoned || error is DuckDb),
    decreases replies.len(),
{
    if replies.len() > 0 {
        law_write_fails_only_by_lock_or_database::<D, A>(replies.drop_last());
    }
}

/// No reply takes a write nowhere.
pub proof fn law_no_reply_is_no_step<D, A>(step: WriteStep<D, A>)
    ensures
        run(step, Seq::<WriteReply<D>>::empty()) == step,
{
}

/// A write that went through these states by these replies has come to the
/// step that its replies lead to, with the same work.
pub(crate) proof fn lemma_states_follow_replies<C, R, D, A>(
    states: Seq<WriteTransaction<C, R, D, A>>,
    replies: Seq<WriteReply<D>>,
    n: int,
)
    requires
        states.len() == replies.len() + 1,
        forall|i: int|
            #![trigger replies[i]]
            0 <= i < replies.len() ==> states[i + 1].step() == step_after(
                states[i].step(),
                replies[i],
            ) && states[i + 1].same_work(states[i]),
        0 <= n <= replies.len(),
    ensures
        states[n].step() == run(states[0].step(), replies.take(n)),
        states[n].same_work(states[0]),
    decreases n,
{
    if n > 0 {
        lemma_states_follow_replies(states, replies, n - 1);
        let reply = replies[n - 1];
        assert(replies.take(n) =~= replies.take(n - 1).push(reply));
        law_one_reply_more_is_one_step_more(states[0].step(), replies.take(n - 1), reply);
        assert(states[(n - 1) + 1] == states[n]);
    } else {
        assert(replies.take(0) =~= Seq::empty());
    }
}

/// What a write calls for, from its making on, for any connection, database,
/// table and rows. While every reply is that the operation was done, it calls
/// for the lock of its connection, the begin of a transaction, an appender to
/// its table of its database, the append of its rows, the flush and the commit,
/// in this order, and then for nothing. After a failure it calls for nothing.
pub proof fn law_write_calls_for_its_operations_in_order<'a, C, R, D, A>(
    connection: Arc<Mutex<C>>,
    database: String,
    table: String,
    rows: R,
    states: Seq<WriteTransaction<C, R, D, A>>,
    replies: Seq<WriteReply<D>>,
    n: int,
    state: &'a WriteTransaction<C, R, D, A>,
    action: Option<WriteAction<'a, C, R>>,
)
    requires
        states.len() == replies.len() + 1,
        call_ensures(
            WriteTransaction::<C, R, D, A>::new,
            (connection, database, table, rows),
            states[0],
        ),
        forall|i: int|
            #![trigger replies[i]]
            0 <= i < replies.len() ==> exists|write: &mut WriteTransaction<C, R, D, A>|
                *write == states[i] && *final(write) == states[i + 1] && call_ensures(
                    WriteTransaction::<C, R, D, A>::advance,
                    (write, replies[i]),
                    (),
                ),
        0 <= n <= replies.len(),
        *state == states[n],
        call_ensures(WriteTransaction::<C, R, D, A>::action, (state,), action),
    ensures
        (forall|i: int| 0 <= i < n && i < 6 ==> #[trigger] replies[i] is Done) ==> {
            &&& n == 0 ==> (action matches Some(WriteAction::Lock { connection: locked }) && *locked
                == connection)
            &&& n == 1 ==> action == Some(WriteAction::<'a, C, R>::Begin)
            &&& n == 2 ==> (action matches Some(
                WriteAction::OpenAppender { table: opened, database: of },
            ) && opened@ == table@ && of@ == database@)
            &&& n == 3 ==> (action matches Some(WriteAction::Append { record_batch })
                && *record_batch == rows)
            &&& n == 4 ==> action == Some(WriteAction::<'a, C, R>::Flush)
            &&& n == 5 ==> action == Some(WriteAction::<'a, C, R>::Commit)
            &&& n >= 6 ==> action is None
        },
        !(forall|i: int| 0 <= i < n && i < 6 ==> #[trigger] replies[i] is Done) ==> action is None,
{
    assert forall|i: int| #![trigger replies[i]] 0 <= i < replies.len() implies states[i + 1].step()
        == step_after(states[i].step(), replies[i]) && states[i + 1].same_work(states[i]) by {}
    lemma_states_follow_replies(states, replies, n);
    let taken = replies.take(n);
    lemma_run_cases::<D, A>(taken);
    if forall|i: int| 0 <= i < n && i < 6 ==> #[trigger] replies[i] is Done {
        assert forall|i: int| 0 <= i < operations() && i < taken.len() implies
            #[trigger] taken[i] is Done by {
            assert(taken[i] == replies[i]);
        }
    } else {
        let i = choose|i: int| 0 <= i < n && i < 6 && !(#[trigger] replies[i] is Done);
        assert(taken[i] == replies[i]);
    }
}

/// How a write ends, from its making on. It succeeds exactly if its six
/// operations were done, it has not ended exactly while fewer were asked for
/// and all of those were done, and otherwise it fails with the first failure.
pub proof fn law_write_ends_as_its_operations_did<C, R, D, A>(
    connection: Arc<Mutex<C>>,
    database: String,
    table: String,
    rows: R,
    states: Seq<WriteTransaction<C, R, D, A>>,
    replies: Seq<WriteReply<D>>,
    end: Option<Result<(), DuckdbServiceError<D, A>>>,
)
    requires
        states.len() == replies.len() + 1,
        call_ensures(
            WriteTransaction::<C, R, D, A>::new,
            (connection, database, table, rows),
            states[0],
        ),
        forall|i: int|
            #![trigger replies[i]]
            0 <= i < replies.len() ==> exists|write: &mut WriteTransaction<C, R, D, A>|
                *write == states[i] && *final(write) == states[i + 1] && call_ensures(
                    WriteTransaction::<C, R, D, A>::advance,
                    (write, replies[i]),
                    (),
                ),
        call_ensures(
            WriteTransaction::<C, R, D, A>::into_result,
            (states[replies.len() as int],),
            end,
        ),
    ensures
        (end matches Some(result) && result is Ok) <==> (replies.len() >= 6 && forall|i: int|
            0 <= i < 6 ==> #[trigger] replies[i] is Done),
        end is None <==> (replies.len() < 6 && forall|i: int|
            0 <= i < replies.len() ==> #[trigger] replies[i] is Done),
        forall|k: int|
            0 <= k < 6 && k < replies.len() && !(#[trigger] replies[k] is Done) && (forall|i: int|
                0 <= i < k ==> #[trigger] replies[i] is Done) ==> match replies[k] {
                WriteReply::Failed { source } => end == Some(
                    Err::<(), DuckdbServiceError<D, A>>(DuckdbServiceError::DuckDb { source }),
                ),
                _ => end == Some(
                    Err::<(), DuckdbServiceError<D, A>>(DuckdbServiceError::MutexPoisoned),
                ),
            },
{
    assert forall|i: int| #![trigger replies[i]] 0 <= i < replies.len() implies states[i + 1].step()
        == step_after(states[i].step(), replies[i]) && states[i + 1].same_work(states[i]) by {}
    lemma_states_follow_replies(states, replies, replies.len() as int);
    assert(replies.take(replies.len() as int) =~= replies);
    lemma_run_cases::<D, A>(replies);
    if let WriteStep::Finished(Ok(unit)) = states[replies.len() as int].step() {
        assert(unit == ());
    }
    if replies.len() < 6 && (forall|i: int|
        0 <= i < replies.len() ==> #[trigger] replies[i] is Done) {
        assert(first_done(replies, operations()));
    }
    if replies.len() >= 6 && (forall|i: int| 0 <= i < 6 ==> #[trigger] replies[i] is Done) {
        assert(first_done(replies, operations()));
    }
    assert forall|k: int|
        0 <= k < 6 && k < replies.len() && !(#[trigger] replies[k] is Done) && (forall|i: int|
            0 <= i < k ==> #[trigger] replies[i] is Done) implies match replies[k] {
        WriteReply::Failed { source } => end == Some(
            Err::<(), DuckdbServiceError<D, A>>(DuckdbServiceError::DuckDb { source }),
        ),
        _ => end == Some(Err::<(), DuckdbServiceError<D, A>>(DuckdbServiceError::MutexPoisoned)),
    } by {
        law_first_failure_decides::<D, A>(replies, k);
    }
}

} // verus!
