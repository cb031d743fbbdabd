//! What the operations of writes do to the tables of a database, told from the
//! operations that were called for and performed.

use crate::error::DuckdbServiceError;
use crate::isolation::{
    committed_by, holds_lock, law_committed_are_those_that_succeeded, law_writes_do_not_overlap,
    lemma_committed_are_writes, lemma_last_reply, lemma_sequences_of_two, lemma_success_is_ok,
    locks_are_free, locks_exclude, on_one_connection, replies_to, step_of,
};
use crate::request::DuckdbRequest;
use crate::response::DuckdbResponse;
use crate::service::{DuckdbCall, DuckdbService, EndpointBytesSent, PendingResponse};
use crate::write::{step_after, WriteAction, WriteReply, WriteStep, WriteTransaction};
use std::sync::{Arc, Mutex};
use vstd::prelude::*;

verus! {

/// The name of a database and that of a table in it.
pub type TableName = (Seq<char>, Seq<char>);

/// A database as one of its connections sees one table: the batches that the
/// table holds, those that an open transaction adds to it, the table that an
/// open appender writes to, and the batches that the appender keeps back.
#[verifier::ext_equal]
pub struct DatabaseState<R> {
    pub committed: Seq<R>,
    pub transaction: Option<Seq<R>>,
    pub appender: Option<TableName>,
    pub buffered: Seq<R>,
}

/// A database without a transaction, whose table holds these batches.
pub open spec fn idle<R>(committed: Seq<R>) -> DatabaseState<R> {
    DatabaseState { committed, transaction: None, appender: None, buffered: Seq::empty() }
}

/// What reaches the watched table from the appender.
pub open spec fn flushed<R>(state: DatabaseState<R>, watched: TableName) -> Seq<R> {
    if state.appender == Some(watched) {
        state.buffered
    } else {
        Seq::empty()
    }
}

/// The database after one operation, as the watched table sees it. A begun
/// transaction is empty. An appender keeps back what is appended until it is
/// flushed or closed; it reaches the table that the appender was opened for. A
/// commit closes the appender and makes the transaction permanent. Where the
/// database refuses an operation the transaction is dropped, which rolls it
/// back. Locking the connection does not touch the database.
pub open spec fn database_after_one<C, R, D>(
    state: DatabaseState<R>,
    watched: TableName,
    action: WriteAction<'_, C, R>,
    reply: WriteReply<D>,
) -> DatabaseState<R> {
    match (action, reply) {
        (WriteAction::Lock { .. }, _) => state,
        (WriteAction::Begin, WriteReply::Done) => DatabaseState {
            transaction: Some(Seq::empty()),
            ..state
        },
        (WriteAction::OpenAppender { table, database }, WriteReply::Done) => DatabaseState {
            appender: Some((database@, table@)),
            buffered: Seq::empty(),
            ..state
        },
        (WriteAction::Append { record_batch }, WriteReply::Done) => DatabaseState {
            buffered: state.buffered.push(*record_batch),
            ..state
        },
        (WriteAction::Flush, WriteReply::Done) => DatabaseState {
            transaction: Some(state.transaction->0 + flushed(state, watched)),
            buffered: Seq::empty(),
            ..state
        },
        (WriteAction::Commit, WriteReply::Done) => idle(
            state.committed + state.transaction->0 + flushed(state, watched),
        ),
        (_, _) => idle(state.committed),
    }
}

/// The database after these operations, each with what came of it.
pub open spec fn database_after<C, R, D>(
    state: DatabaseState<R>,
    watched: TableName,
    performed: Seq<(WriteAction<'_, C, R>, WriteReply<D>)>,
) -> DatabaseState<R>
    decreases performed.len(),
{
    if performed.len() == 0 {
        state
    } else {
        database_after_one(
            database_after(state, watched, performed.drop_last()),
            watched,
            performed.last().0,
            performed.last().1,
        )
    }
}

/// What these rows, written to table `target`, add to the watched table.
pub open spec fn landed<R>(target: TableName, rows: R, watched: TableName) -> Seq<R> {
    if target == watched {
        seq![rows]
    } else {
        Seq::empty()
    }
}

/// What came of operations, told as to which write each reply came.
pub open spec fn told<C, R, D>(
    whose: Seq<int>,
    performed: Seq<(WriteAction<'_, C, R>, WriteReply<D>)>,
) -> Seq<(int, WriteReply<D>)> {
    Seq::new(performed.len(), |i: int| (whose[i], performed[i].1))
}

/// The state of write `w` after these replies: the one that its last reply left
/// it in, or the one it began in.
pub open spec fn state_of<C, R, D, A>(
    writes: Seq<WriteTransaction<C, R, D, A>>,
    whose: Seq<int>,
    after: Seq<WriteTransaction<C, R, D, A>>,
    w: int,
) -> WriteTransaction<C, R, D, A>
    decreases whose.len(),
{
    if whose.len() == 0 {
        writes[w]
    } else if whose.last() == w {
        after[whose.len() - 1]
    } else {
        state_of(writes, whose.drop_last(), after, w)
    }
}

/// The database while a write is at `step`, on a table that otherwise holds
/// `committed`.
spec fn database_at<R, D, A>(
    committed: Seq<R>,
    step: WriteStep<D, A>,
    target: TableName,
    rows: R,
    watched: TableName,
) -> DatabaseState<R> {
    let begun = Seq::empty();
    match step {
        WriteStep::OpenAppender => DatabaseState { transaction: Some(begun), ..idle(committed) },
        WriteStep::Append => DatabaseState {
            transaction: Some(begun),
            appender: Some(target),
            ..idle(committed)
        },
        WriteStep::Flush => DatabaseState {
            committed,
            transaction: Some(begun),
            appender: Some(target),
            buffered: seq![rows],
        },
        WriteStep::Commit => DatabaseState {
            transaction: Some(landed(target, rows, watched)),
            appender: Some(target),
            ..idle(committed)
        },
        WriteStep::Finished(Ok(_)) => idle(committed + landed(target, rows, watched)),
        _ => idle(committed),
    }
}

/// One operation that a write calls for takes the database along with the write.
proof fn lemma_operation_moves_the_database<C, R, D, A>(
    committed: Seq<R>,
    watched: TableName,
    write: WriteTransaction<C, R, D, A>,
    action: WriteAction<'_, C, R>,
    reply: WriteReply<D>,
)
    requires
        write.calls_for(Some(action)),
    ensures
        ({
            let target = (write.database(), write.table());
            let rows = write.record_batch();
            let before = database_at(committed, write.step(), target, rows, watched);
            let step = step_after(write.step(), reply);
            database_after_one(before, watched, action, reply) == database_at(
                committed,
                step,
                target,
                rows,
                watched,
            )
        }),
{
    let target = (write.database(), write.table());
    let rows = write.record_batch();
    let before = database_at(committed, write.step(), target, rows, watched);
    let step = step_after(write.step(), reply);
    let after = database_after_one(before, watched, action, reply);
    let expected = database_at(committed, step, target, rows, watched);
    assert(after.committed =~= expected.committed);
    assert(after.buffered =~= expected.buffered);
    if after.transaction is Some {
        assert(after.transaction->0 =~= expected.transaction->0);
    }
}

/// While a write goes through these states, the database follows its step.
proof fn lemma_database_follows_the_write<'a, C, R, D, A>(
    committed: Seq<R>,
    watched: TableName,
    states: Seq<WriteTransaction<C, R, D, A>>,
    performed: Seq<(WriteAction<'a, C, R>, WriteReply<D>)>,
)
    requires
        states.len() == performed.len() + 1,
        states[0].step() is Lock,
        forall|i: int|
            #![trigger performed[i]]
            0 <= i < performed.len() ==> {
                &&& states[i].calls_for(Some(performed[i].0))
                &&& states[i + 1].step() == step_after(states[i].step(), performed[i].1)
                &&& states[i + 1].same_work(states[i])
            },
    ensures
        states.last().same_work(states[0]),
        database_after(idle(committed), watched, performed) == database_at(
            committed,
            states.last().step(),
            (states[0].database(), states[0].table()),
            states[0].record_batch(),
            watched,
        ),
    decreases performed.len(),
{
    if performed.len() > 0 {
        let earlier = performed.drop_last();
        let n = performed.len() - 1;
        assert forall|i: int| #![trigger earlier[i]] 0 <= i < earlier.len() implies {
            &&& states.drop_last()[i].calls_for(Some(earlier[i].0))
            &&& states.drop_last()[i + 1].step() == step_after(
                states.drop_last()[i].step(),
                earlier[i].1,
            )
            &&& states.drop_last()[i + 1].same_work(states.drop_last()[i])
        } by {
            assert(earlier[i] == performed[i]);
        }
        lemma_database_follows_the_write(committed, watched, states.drop_last(), earlier);
        assert(performed[n] == performed.last());
        assert(states[n + 1] == states.last());
        assert(states.drop_last().last() == states[n]);
        lemma_operation_moves_the_database(
            committed,
            watched,
            states[n],
            performed.last().0,
            performed.last().1,
        );
    }
}

/// What one write does to the database if it is asked for each operation, the
/// operation is performed and the write is told what came of it. A write that
/// ends well has added its rows to its table, once and whole; a write that fails
/// or has not ended has added nothing; and no other table is touched. Once the
/// write has ended no transaction is open.
pub proof fn law_write_adds_its_rows_exactly_if_it_ends_well<'a, C, R, D, A>(
    connection: Arc<Mutex<C>>,
    database: String,
    table: String,
    rows: R,
    states: Seq<&'a WriteTransaction<C, R, D, A>>,
    performed: Seq<(WriteAction<'a, C, R>, WriteReply<D>)>,
    end: Option<Result<(), DuckdbServiceError<D, A>>>,
    committed: Seq<R>,
    watched: TableName,
)
    requires
        states.len() == performed.len() + 1,
        call_ensures(
            WriteTransaction::<C, R, D, A>::new,
            (connection, database, table, rows),
            *states[0],
        ),
        forall|i: int|
            #![trigger performed[i]]
            0 <= i < performed.len() ==> call_ensures(
                WriteTransaction::<C, R, D, A>::action,
                (states[i],),
                Some(performed[i].0),
            ) && exists|write: &mut WriteTransaction<C, R, D, A>|
                *write == *states[i] && *final(write) == *states[i + 1] && call_ensures(
                    WriteTransaction::<C, R, D, A>::advance,
                    (write, performed[i].1),
                    (),
                ),
        call_ensures(WriteTransaction::<C, R, D, A>::into_result, (*states.last(),), end),
    ensures
        ({
            let after = database_after(idle(committed), watched, performed);
            &&& after.committed == (if end matches Some(result) && result is Ok && watched == (
                database@,
                table@,
            ) {
                committed.push(rows)
            } else {
                committed
            })
            &&& end is Some ==> after.transaction is None
        }),
{
    let values = states.map_values(|state: &'a WriteTransaction<C, R, D, A>| *state);
    assert forall|i: int| #![trigger performed[i]] 0 <= i < performed.len() implies {
        &&& values[i].calls_for(Some(performed[i].0))
        &&& values[i + 1].step() == step_after(values[i].step(), performed[i].1)
        &&& values[i + 1].same_work(values[i])
    } by {
        assert(values[i] == *states[i]);
        assert(values[i + 1] == *states[i + 1]);
    }
    lemma_database_follows_the_write(committed, watched, values, performed);
    assert(values.last() == *states.last());
    assert(committed + seq![rows] =~= committed.push(rows));
    assert(committed + Seq::<R>::empty() =~= committed);
}

/// What one call does to the database. A call that is answered has added its
/// rows to the table of its service, once and whole, whatever the number of its
/// events; a call that fails has added nothing; and no other table is touched.
pub proof fn law_answered_call_has_added_its_rows<'a, C, S: Clone, P, F, G, R, D, A>(
    connection: Arc<Mutex<C>>,
    database: String,
    table: String,
    endpoint: String,
    serializer: S,
    service: DuckdbService<C, S>,
    request: DuckdbRequest<P, F, G>,
    call: DuckdbCall<C, S, P, F, G>,
    rows: R,
    states: Seq<&'a WriteTransaction<C, R, D, A>>,
    pending: PendingResponse<P, F, G>,
    performed: Seq<(WriteAction<'a, C, R>, WriteReply<D>)>,
    end: Result<(), DuckdbServiceError<D, A>>,
    answer: Result<(EndpointBytesSent, DuckdbResponse<G>), DuckdbServiceError<D, A>>,
    committed: Seq<R>,
    watched: TableName,
)
    requires
        call_ensures(
            DuckdbService::<C, S>::new,
            (connection, database, table, endpoint, serializer),
            service,
        ),
        exists|called: &mut DuckdbService<C, S>|
            *called == service && call_ensures(
                DuckdbService::<C, S>::call::<P, F, G>,
                (called, request),
                call,
            ),
        states.len() == performed.len() + 1,
        call_ensures(
            DuckdbCall::<C, S, P, F, G>::encoded::<R, D, A>,
            (call, Ok(rows)),
            Ok((*states[0], pending)),
        ),
        forall|i: int|
            #![trigger performed[i]]
            0 <= i < performed.len() ==> call_ensures(
                WriteTransaction::<C, R, D, A>::action,
                (states[i],),
                Some(performed[i].0),
            ) && exists|write: &mut WriteTransaction<C, R, D, A>|
                *write == *states[i] && *final(write) == *states[i + 1] && call_ensures(
                    WriteTransaction::<C, R, D, A>::advance,
                    (write, performed[i].1),
                    (),
                ),
        call_ensures(WriteTransaction::<C, R, D, A>::into_result, (*states.last(),), Some(end)),
        call_ensures(PendingResponse::<P, F, G>::joined::<D, A>, (pending, Ok(end)), answer),
    ensures
        ({
            let after = database_after(idle(committed), watched, performed);
            &&& after.committed == (if answer is Ok && watched == (database@, table@) {
                committed.push(rows)
            } else {
                committed
            })
            &&& after.transaction is None
        }),
{
    let values = states.map_values(|state: &'a WriteTransaction<C, R, D, A>| *state);
    assert forall|i: int| #![trigger performed[i]] 0 <= i < performed.len() implies {
        &&& values[i].calls_for(Some(performed[i].0))
        &&& values[i + 1].step() == step_after(values[i].step(), performed[i].1)
        &&& values[i + 1].same_work(values[i])
    } by {
        assert(values[i] == *states[i]);
        assert(values[i + 1] == *states[i + 1]);
    }
    lemma_database_follows_the_write(committed, watched, values, performed);
    assert(values.last() == *states.last());
    assert(committed + seq![rows] =~= committed.push(rows));
    assert(committed + Seq::<R>::empty() =~= committed);
}

/// What these writes, in this order, add to the watched table.
pub open spec fn added<C, R, D, A>(
    writes: Seq<WriteTransaction<C, R, D, A>>,
    which: Seq<int>,
    watched: TableName,
) -> Seq<R>
    decreases which.len(),
{
    if which.len() == 0 {
        Seq::empty()
    } else {
        let write = writes[which.last()];
        added(writes, which.drop_last(), watched) + landed(
            (write.database(), write.table()),
            write.record_batch(),
            watched,
        )
    }
}

/// Whether these writes went through these states: each operation was called
/// for by the write that got the reply, in the state that its last reply had
/// left it in.
spec fn came_about<'a, C, R, D, A>(
    writes: Seq<WriteTransaction<C, R, D, A>>,
    whose: Seq<int>,
    after: Seq<WriteTransaction<C, R, D, A>>,
    performed: Seq<(WriteAction<'a, C, R>, WriteReply<D>)>,
) -> bool {
    &&& whose.len() == performed.len()
    &&& after.len() == performed.len()
    &&& forall|w: int| 0 <= w < writes.len() ==> (#[trigger] writes[w]).step() is Lock
    &&& forall|i: int|
        #![trigger performed[i]]
        0 <= i < performed.len() ==> {
            let before = state_of(writes, whose.take(i), after, whose[i]);
            &&& before.calls_for(Some(performed[i].0))
            &&& after[i].step() == step_after(before.step(), performed[i].1)
            &&& after[i].same_work(before)
        }
}

/// Without its last operation, what came about still came about.
proof fn lemma_came_about_before<'a, C, R, D, A>(
    writes: Seq<WriteTransaction<C, R, D, A>>,
    whose: Seq<int>,
    after: Seq<WriteTransaction<C, R, D, A>>,
    performed: Seq<(WriteAction<'a, C, R>, WriteReply<D>)>,
)
    requires
        came_about(writes, whose, after, performed),
        performed.len() > 0,
    ensures
        came_about(writes, whose.drop_last(), after.drop_last(), performed.drop_last()),
        told(whose.drop_last(), performed.drop_last()) == told(whose, performed).drop_last(),
        whose.take(performed.len() - 1) == whose.drop_last(),
{
    let earlier = performed.drop_last();
    assert(told(whose.drop_last(), earlier) =~= told(whose, performed).drop_last());
    assert(whose.take(performed.len() - 1) =~= whose.drop_last());
    assert forall|i: int| #![trigger earlier[i]] 0 <= i < earlier.len() implies {
        let before = state_of(
            writes,
            whose.drop_last().take(i),
            after.drop_last(),
            whose.drop_last()[i],
        );
        &&& before.calls_for(Some(earlier[i].0))
        &&& after.drop_last()[i].step() == step_after(before.step(), earlier[i].1)
        &&& after.drop_last()[i].same_work(before)
    } by {
        assert(earlier[i] == performed[i]);
        assert(whose.drop_last().take(i) =~= whose.take(i));
        lemma_later_states_do_not_matter(
            writes,
            whose.take(i),
            after.drop_last(),
            after,
            whose[i],
        );
    }
}

/// The state of a write is found among the states up to then.
proof fn lemma_later_states_do_not_matter<C, R, D, A>(
    writes: Seq<WriteTransaction<C, R, D, A>>,
    whose: Seq<int>,
    after: Seq<WriteTransaction<C, R, D, A>>,
    others: Seq<WriteTransaction<C, R, D, A>>,
    w: int,
)
    requires
        forall|i: int| 0 <= i < whose.len() ==> #[trigger] after[i] == others[i],
    ensures
        state_of(writes, whose, after, w) == state_of(writes, whose, others, w),
    decreases whose.len(),
{
    if whose.len() > 0 {
        assert(after[whose.len() - 1] == others[whose.len() - 1]);
        lemma_later_states_do_not_matter(writes, whose.drop_last(), after, others, w);
    }
}

/// A write is at the step that its replies have taken it to, with its work.
proof fn lemma_states_are_at_their_steps<'a, C, R, D, A>(
    writes: Seq<WriteTransaction<C, R, D, A>>,
    whose: Seq<int>,
    after: Seq<WriteTransaction<C, R, D, A>>,
    performed: Seq<(WriteAction<'a, C, R>, WriteReply<D>)>,
    w: int,
)
    requires
        came_about(writes, whose, after, performed),
        0 <= w < writes.len(),
    ensures
        state_of(writes, whose, after, w).step() == step_of::<D, A>(told(whose, performed), w),
        state_of(writes, whose, after, w).same_work(writes[w]),
    decreases performed.len(),
{
    let history = told(whose, performed);
    if performed.len() > 0 {
        let n = performed.len() - 1;
        lemma_came_about_before(writes, whose, after, performed);
        lemma_states_are_at_their_steps(
            writes,
            whose.drop_last(),
            after.drop_last(),
            performed.drop_last(),
            w,
        );
        lemma_later_states_do_not_matter(
            writes,
            whose.drop_last(),
            after.drop_last(),
            after,
            w,
        );
        lemma_last_reply::<D, A>(history, w);
        assert(performed[n] == performed.last());
        assert(history.last() == (whose.last(), performed.last().1));
    }
}

/// While one write holds the lock the database follows its step; while none
/// does it is idle. The table holds what the committed writes added to it.
proof fn lemma_database_follows_the_holder<'a, C, R, D, A>(
    writes: Seq<WriteTransaction<C, R, D, A>>,
    whose: Seq<int>,
    after: Seq<WriteTransaction<C, R, D, A>>,
    performed: Seq<(WriteAction<'a, C, R>, WriteReply<D>)>,
    committed: Seq<R>,
    watched: TableName,
)
    requires
        came_about(writes, whose, after, performed),
        on_one_connection(writes),
        locks_exclude(writes, told(whose, performed)),
    ensures
        ({
            let history = told(whose, performed);
            let state = database_after(idle(committed), watched, performed);
            let held = committed + added(writes, committed_by::<D, A>(history), watched);
            &&& state.committed == held
            &&& forall|w: int|
                0 <= w < writes.len() && #[trigger] holds_lock::<D, A>(history, w) ==> state
                    == database_at(
                    held,
                    step_of::<D, A>(history, w),
                    (writes[w].database(), writes[w].table()),
                    writes[w].record_batch(),
                    watched,
                )
            &&& locks_are_free::<D, A>(history, writes.len()) ==> state == idle(held)
        }),
    decreases performed.len(),
{
    let history = told(whose, performed);
    let state = database_after(idle(committed), watched, performed);
    let held = committed + added(writes, committed_by::<D, A>(history), watched);
    if performed.len() == 0 {
        assert(held =~= committed);
        assert forall|w: int| !#[trigger] holds_lock::<D, A>(history, w) by {
            assert(replies_to(history, w) =~= Seq::empty());
        }
    } else {
        let n = performed.len() - 1;
        let earlier = history.drop_last();
        let u = whose.last();
        let write = writes[u];
        let target = (write.database(), write.table());
        let rows = write.record_batch();
        let step = step_of::<D, A>(earlier, u);
        let before = database_after(idle(committed), watched, performed.drop_last());
        let held_before = committed + added(writes, committed_by::<D, A>(earlier), watched);
        let at = state_of(writes, whose.drop_last(), after, u);
        lemma_came_about_before(writes, whose, after, performed);
        lemma_database_follows_the_holder(
            writes,
            whose.drop_last(),
            after.drop_last(),
            performed.drop_last(),
            committed,
            watched,
        );
        assert(history.last() == (u, performed.last().1));
        lemma_last_reply::<D, A>(history, u);
        lemma_states_are_at_their_steps(
            writes,
            whose.drop_last(),
            after.drop_last(),
            performed.drop_last(),
            u,
        );
        lemma_later_states_do_not_matter(
            writes,
            whose.drop_last(),
            after.drop_last(),
            after,
            u,
        );
        assert(performed[n] == performed.last());
        assert(at.calls_for(Some(performed.last().0)));
        assert(!(step is Finished));
        assert forall|w: int| 0 <= w < writes.len() && w != u implies !#[trigger] holds_lock::<
            D,
            A,
        >(earlier, w) by {
            assert(writes[w].connection() == writes[u].connection());
            law_writes_do_not_overlap(writes, earlier, w, u);
        }
        if step is Lock {
            assert(!holds_lock::<D, A>(earlier, u));
            assert(locks_are_free::<D, A>(earlier, writes.len()));
        } else {
            assert(holds_lock::<D, A>(earlier, u));
        }
        assert(before == database_at(held_before, step, target, rows, watched));
        lemma_operation_moves_the_database(
            held_before,
            watched,
            at,
            performed.last().0,
            performed.last().1,
        );
        let step_now = step_of::<D, A>(history, u);
        assert(state == database_at(held_before, step_now, target, rows, watched));
        if step is Commit && performed.last().1 is Done {
            let which = committed_by::<D, A>(earlier);
            assert(committed_by::<D, A>(history) == which.push(u));
            assert(which.push(u).drop_last() =~= which);
            assert(held =~= held_before + landed(target, rows, watched));
        } else {
            assert(held == held_before);
            lemma_success_comes_of_the_commit(step, performed.last().1);
        }
        assert forall|w: int|
            0 <= w < writes.len() && #[trigger] holds_lock::<D, A>(history, w) implies state
            == database_at(
            held,
            step_of::<D, A>(history, w),
            (writes[w].database(), writes[w].table()),
            writes[w].record_batch(),
            watched,
        ) by {
            lemma_last_reply::<D, A>(history, w);
            if w != u {
                assert(!holds_lock::<D, A>(earlier, w));
            }
        }
        if locks_are_free::<D, A>(history, writes.len()) {
            assert(!holds_lock::<D, A>(history, u));
        }
    }
}

/// A write that has not ended ends well only by its commit.
proof fn lemma_success_comes_of_the_commit<D, A>(step: WriteStep<D, A>, reply: WriteReply<D>)
    requires
        !(step is Finished),
    ensures
        (step_after(step, reply) matches WriteStep::Finished(end) && end is Ok) <==> (
        step is Commit && reply is Done),
{
}

/// What writes through one connection do to the database, whichever way their
/// operations come about, if each write is asked for each operation, the
/// operation is performed and the write is told what came of it, and the lock
/// excludes. Each table holds what it held before and then the rows of the
/// writes to it that ended well, each once and whole; the others have added
/// nothing. Once no write holds the lock no transaction is open.
pub proof fn law_tables_hold_the_rows_of_the_writes_that_ended_well<'a, C, R, D, A>(
    made: Seq<(Arc<Mutex<C>>, String, String, R)>,
    writes: Seq<WriteTransaction<C, R, D, A>>,
    whose: Seq<int>,
    before: Seq<&'a WriteTransaction<C, R, D, A>>,
    after: Seq<WriteTransaction<C, R, D, A>>,
    performed: Seq<(WriteAction<'a, C, R>, WriteReply<D>)>,
    ends: Seq<Option<Result<(), DuckdbServiceError<D, A>>>>,
    committed: Seq<R>,
    watched: TableName,
)
    requires
        made.len() == writes.len(),
        ends.len() == writes.len(),
        whose.len() == performed.len(),
        before.len() == performed.len(),
        after.len() == performed.len(),
        forall|w: int|
            #![trigger writes[w]]
            0 <= w < writes.len() ==> call_ensures(
                WriteTransaction::<C, R, D, A>::new,
                made[w],
                writes[w],
            ),
        forall|v: int, w: int|
            0 <= v < made.len() && 0 <= w < made.len() ==> (#[trigger] made[v]).0 == (
            #[trigger] made[w]).0,
        forall|i: int|
            #![trigger performed[i]]
            0 <= i < performed.len() ==> *before[i] == state_of(
                writes,
                whose.take(i),
                after,
                whose[i],
            ) && call_ensures(
                WriteTransaction::<C, R, D, A>::action,
                (before[i],),
                Some(performed[i].0),
            ) && exists|write: &mut WriteTransaction<C, R, D, A>|
                *write == *before[i] && *final(write) == after[i] && call_ensures(
                    WriteTransaction::<C, R, D, A>::advance,
                    (write, performed[i].1),
                    (),
                ),
        forall|w: int|
            #![trigger ends[w]]
            0 <= w < writes.len() ==> call_ensures(
                WriteTransaction::<C, R, D, A>::into_result,
                (state_of(writes, whose, after, w),),
                ends[w],
            ),
        locks_exclude(writes, told(whose, performed)),
    ensures
        ({
            let state = database_after(idle(committed), watched, performed);
            let which = committed_by::<D, A>(told(whose, performed));
            &&& state.committed == committed + added(writes, which, watched)
            &&& which.no_duplicates()
            &&& forall|w: int|
                0 <= w < writes.len() ==> (#[trigger] which.contains(w) <==> (ends[w] matches Some(
                    end,
                ) && end is Ok))
            &&& forall|i: int| 0 <= i < which.len() ==> 0 <= #[trigger] which[i] < writes.len()
            &&& forall|w: int|
                0 <= w < writes.len() ==> {
                    &&& (#[trigger] writes[w]).database() == made[w].1@
                    &&& writes[w].table() == made[w].2@
                    &&& writes[w].record_batch() == made[w].3
                }
            &&& (forall|w: int| 0 <= w < writes.len() ==> #[trigger] ends[w] is Some)
                ==> state.transaction is None
        }),
{
    let history = told(whose, performed);
    let which = committed_by::<D, A>(history);
    assert(came_about(writes, whose, after, performed)) by {
        assert forall|i: int| #![trigger performed[i]] 0 <= i < performed.len() implies {
            let at = state_of(writes, whose.take(i), after, whose[i]);
            &&& at.calls_for(Some(performed[i].0))
            &&& after[i].step() == step_after(at.step(), performed[i].1)
            &&& after[i].same_work(at)
        } by {}
    }
    assert(on_one_connection(writes)) by {
        assert forall|v: int, w: int|
            0 <= v < writes.len() && 0 <= w < writes.len() implies #[trigger] writes[v].connection()
            == #[trigger] writes[w].connection() by {
            assert(made[v].0 == made[w].0);
        }
    }
    lemma_database_follows_the_holder(writes, whose, after, performed, committed, watched);
    law_committed_are_those_that_succeeded::<D, A>(history);
    lemma_committed_are_writes(writes, history);
    assert forall|w: int| 0 <= w < writes.len() implies (#[trigger] which.contains(w) <==> (
    ends[w] matches Some(end) && end is Ok)) by {
        lemma_states_are_at_their_steps(writes, whose, after, performed, w);
        lemma_success_is_ok::<D, A>(step_of::<D, A>(history, w));
        assert(call_ensures(
            WriteTransaction::<C, R, D, A>::into_result,
            (state_of(writes, whose, after, w),),
            ends[w],
        ));
    }
    if forall|w: int| 0 <= w < writes.len() ==> #[trigger] ends[w] is Some {
        assert forall|w: int| 0 <= w < writes.len() implies !#[trigger] holds_lock::<D, A>(
            history,
            w,
        ) by {
            lemma_states_are_at_their_steps(writes, whose, after, performed, w);
            assert(ends[w] is Some);
        }
    }
}

/// What two calls on one connection do to their table, whichever way their
/// operations come about, from the encoded rows to the answers. The table holds
/// what it held before, then the rows of each call that was answered, once and
/// whole, and nothing of one that failed. No transaction is left open.
pub proof fn law_two_answered_calls_have_both_added_their_rows<'a, C, S, P, F, G, R, D, A>(
    calls: (DuckdbCall<C, S, P, F, G>, DuckdbCall<C, S, P, F, G>),
    rows: (R, R),
    pending: (PendingResponse<P, F, G>, PendingResponse<P, F, G>),
    writes: Seq<WriteTransaction<C, R, D, A>>,
    whose: Seq<int>,
    before: Seq<&'a WriteTransaction<C, R, D, A>>,
    after: Seq<WriteTransaction<C, R, D, A>>,
    performed: Seq<(WriteAction<'a, C, R>, WriteReply<D>)>,
    ends: (Result<(), DuckdbServiceError<D, A>>, Result<(), DuckdbServiceError<D, A>>),
    answers: (
        Result<(EndpointBytesSent, DuckdbResponse<G>), DuckdbServiceError<D, A>>,
        Result<(EndpointBytesSent, DuckdbResponse<G>), DuckdbServiceError<D, A>>,
    ),
    committed: Seq<R>,
)
    requires
        calls.0.connection == calls.1.connection,
        calls.0.database@ == calls.1.database@,
        calls.0.table@ == calls.1.table@,
        writes.len() == 2,
        call_ensures(
            DuckdbCall::<C, S, P, F, G>::encoded::<R, D, A>,
            (calls.0, Ok(rows.0)),
            Ok((writes[0], pending.0)),
        ),
        call_ensures(
            DuckdbCall::<C, S, P, F, G>::encoded::<R, D, A>,
            (calls.1, Ok(rows.1)),
            Ok((writes[1], pending.1)),
        ),
        whose.len() == performed.len(),
        before.len() == performed.len(),
        after.len() == performed.len(),
        forall|i: int|
            #![trigger performed[i]]
            0 <= i < performed.len() ==> *before[i] == state_of(
                writes,
                whose.take(i),
                after,
                whose[i],
            ) && call_ensures(
                WriteTransaction::<C, R, D, A>::action,
                (before[i],),
                Some(performed[i].0),
            ) && exists|write: &mut WriteTransaction<C, R, D, A>|
                *write == *before[i] && *final(write) == after[i] && call_ensures(
                    WriteTransaction::<C, R, D, A>::advance,
                    (write, performed[i].1),
                    (),
                ),
        call_ensures(
            WriteTransaction::<C, R, D, A>::into_result,
            (state_of(writes, whose, after, 0),),
            Some(ends.0),
        ),
        call_ensures(
            WriteTransaction::<C, R, D, A>::into_result,
            (state_of(writes, whose, after, 1),),
            Some(ends.1),
        ),
        call_ensures(
            PendingResponse::<P, F, G>::joined::<D, A>,
            (pending.0, Ok(ends.0)),
            answers.0,
        ),
        call_ensures(
            PendingResponse::<P, F, G>::joined::<D, A>,
            (pending.1, Ok(ends.1)),
            answers.1,
        ),
        locks_exclude(writes, told(whose, performed)),
    ensures
        ({
            let watched = (calls.0.database@, calls.0.table@);
            let state = database_after(idle(committed), watched, performed);
            &&& state.transaction is None
            &&& match (answers.0, answers.1) {
                (Ok(_), Ok(_)) => {
                    ||| state.committed == committed + seq![rows.0, rows.1]
                    ||| state.committed == committed + seq![rows.1, rows.0]
                },
                (Ok(_), Err(_)) => state.committed == committed + seq![rows.0],
                (Err(_), Ok(_)) => state.committed == committed + seq![rows.1],
                (Err(_), Err(_)) => state.committed == committed,
            }
        }),
{
    let watched = (calls.0.database@, calls.0.table@);
    let history = told(whose, performed);
    let which = committed_by::<D, A>(history);
    assert(came_about(writes, whose, after, performed)) by {
        assert forall|i: int| #![trigger performed[i]] 0 <= i < performed.len() implies {
            let at = state_of(writes, whose.take(i), after, whose[i]);
            &&& at.calls_for(Some(performed[i].0))
            &&& after[i].step() == step_after(at.step(), performed[i].1)
            &&& after[i].same_work(at)
        } by {}
    }
    lemma_database_follows_the_holder(writes, whose, after, performed, committed, watched);
    law_committed_are_those_that_succeeded::<D, A>(history);
    lemma_committed_are_writes(writes, history);
    lemma_states_are_at_their_steps(writes, whose, after, performed, 0);
    lemma_states_are_at_their_steps(writes, whose, after, performed, 1);
    lemma_success_is_ok::<D, A>(step_of::<D, A>(history, 0));
    lemma_success_is_ok::<D, A>(step_of::<D, A>(history, 1));
    assert(which.contains(0) <==> step_of::<D, A>(history, 0) == WriteStep::<D, A>::Finished(
        Ok(()),
    ));
    assert(which.contains(1) <==> step_of::<D, A>(history, 1) == WriteStep::<D, A>::Finished(
        Ok(()),
    ));
    lemma_sequences_of_two(which);
    assert(locks_are_free::<D, A>(history, writes.len())) by {
        assert(!holds_lock::<D, A>(history, 0));
        assert(!holds_lock::<D, A>(history, 1));
    }
    lemma_added_by_two(writes, watched, rows);
    assert(committed + Seq::<R>::empty() =~= committed);
}

/// What two writes to one table add to it, alone and one after the other.
proof fn lemma_added_by_two<C, R, D, A>(
    writes: Seq<WriteTransaction<C, R, D, A>>,
    watched: TableName,
    rows: (R, R),
)
    requires
        (writes[0].database(), writes[0].table()) == watched,
        (writes[1].database(), writes[1].table()) == watched,
        writes[0].record_batch() == rows.0,
        writes[1].record_batch() == rows.1,
    ensures
        added(writes, Seq::<int>::empty(), watched) == Seq::<R>::empty(),
        added(writes, seq![0int], watched) == seq![rows.0],
        added(writes, seq![1int], watched) == seq![rows.1],
        added(writes, seq![0int, 1int], watched) == seq![rows.0, rows.1],
        added(writes, seq![1int, 0int], watched) == seq![rows.1, rows.0],
{
    reveal_with_fuel(added, 3);
    assert(seq![0int].drop_last() =~= Seq::<int>::empty());
    assert(seq![1int].drop_last() =~= Seq::<int>::empty());
    assert(seq![0int, 1int].drop_last() =~= seq![0int]);
    assert(seq![1int, 0int].drop_last() =~= seq![1int]);
    assert(added(writes, seq![0int], watched) =~= seq![rows.0]);
    assert(added(writes, seq![1int], watched) =~= seq![rows.1]);
    assert(added(writes, seq![0int, 1int], watched) =~= seq![rows.0, rows.1]);
    assert(added(writes, seq![1int, 0int], watched) =~= seq![rows.1, rows.0]);
}

} // verus!
