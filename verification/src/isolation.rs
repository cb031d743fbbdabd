//! Several writes at once through one connection: they do not overlap, and the
//! table ends up with the rows of exactly those that succeeded.
//!
//! What happens is told as a history: to which write a reply came, in the order
//! in which the replies came.

use crate::request::DuckdbRequest;
use crate::service::{end_of_call, DuckdbCall, DuckdbService, PendingResponse};
use crate::write::{
    law_one_reply_more_is_one_step_more, run, step_after, WriteReply, WriteStep, WriteTransaction,
};
use vstd::prelude::*;

verus! {

/// The replies of a history that came to write `w`.
pub open spec fn replies_to<D>(history: Seq<(int, WriteReply<D>)>, w: int) -> Seq<WriteReply<D>>
    decreases history.len(),
{
    if history.len() == 0 {
        Seq::empty()
    } else {
        let earlier = replies_to(history.drop_last(), w);
        if history.last().0 == w {
            earlier.push(history.last().1)
        } else {
            earlier
        }
    }
}

/// How far write `w` has come by a history.
pub open spec fn step_of<D, A>(history: Seq<(int, WriteReply<D>)>, w: int) -> WriteStep<D, A> {
    run(WriteStep::<D, A>::Lock, replies_to(history, w))
}

/// Whether write `w` holds the lock of its connection after a history: it has
/// taken it and has not ended. This covers its whole transaction.
pub open spec fn holds_lock<D, A>(history: Seq<(int, WriteReply<D>)>, w: int) -> bool {
    !(step_of::<D, A>(history, w) is Lock) && !(step_of::<D, A>(history, w) is Finished)
}

/// Whether none of the writes up to `n` holds its lock.
pub open spec fn locks_are_free<D, A>(history: Seq<(int, WriteReply<D>)>, n: nat) -> bool {
    forall|w: int| 0 <= w < n ==> !#[trigger] holds_lock::<D, A>(history, w)
}

/// Whether all writes go through one connection.
pub open spec fn on_one_connection<C, R, D, A>(writes: Seq<WriteTransaction<C, R, D, A>>) -> bool {
    forall|v: int, w: int|
        0 <= v < writes.len() && 0 <= w < writes.len() ==> #[trigger] writes[v].connection()
            == #[trigger] writes[w].connection()
}

/// Whether the locks of a history reply as mutexes do: a write that asks for the
/// lock of its connection gets no reply while another write holds it.
pub open spec fn locks_exclude<C, R, D, A>(
    writes: Seq<WriteTransaction<C, R, D, A>>,
    history: Seq<(int, WriteReply<D>)>,
) -> bool
    decreases history.len(),
{
    if history.len() == 0 {
        true
    } else {
        let earlier = history.drop_last();
        let w = history.last().0;
        &&& locks_exclude(writes, earlier)
        &&& 0 <= w < writes.len()
        &&& step_of::<D, A>(earlier, w) is Lock ==> forall|v: int|
            0 <= v < writes.len() && v != w && writes[v].connection() == writes[w].connection()
                ==> !#[trigger] holds_lock::<D, A>(earlier, v)
    }
}

/// A table as its connection sees it: the batches that are committed, and those
/// of the transaction that is open, if one is.
pub struct TableState<R> {
    pub committed: Seq<R>,
    pub open: Option<Seq<R>>,
}

/// What a reply to a write at `step` says of the table, as transactions go: a
/// begun transaction is empty, an append adds to it and a commit makes it
/// permanent. A write that fails drops its transaction, which is rolled back.
/// Asking for the lock does not touch the table, nor does a write that has
/// ended.
pub open spec fn table_after_reply<R, D, A>(
    table: TableState<R>,
    step: WriteStep<D, A>,
    reply: WriteReply<D>,
    rows: R,
) -> TableState<R> {
    match (step, reply) {
        (WriteStep::Lock, _) => table,
        (WriteStep::Finished(_), _) => table,
        (WriteStep::Begin, WriteReply::Done) => TableState { open: Some(Seq::empty()), ..table },
        (WriteStep::Append, WriteReply::Done) => TableState {
            open: Some(table.open->0.push(rows)),
            ..table
        },
        (WriteStep::Commit, WriteReply::Done) => TableState {
            committed: table.committed + table.open->0,
            open: None,
        },
        (_, WriteReply::Done) => table,
        (_, _) => TableState { open: None, ..table },
    }
}

/// The table after a history.
pub open spec fn table_after<C, R, D, A>(
    writes: Seq<WriteTransaction<C, R, D, A>>,
    before: TableState<R>,
    history: Seq<(int, WriteReply<D>)>,
) -> TableState<R>
    decreases history.len(),
{
    if history.len() == 0 {
        before
    } else {
        let earlier = history.drop_last();
        let w = history.last().0;
        table_after_reply(
            table_after(writes, before, earlier),
            step_of::<D, A>(earlier, w),
            history.last().1,
            writes[w].record_batch(),
        )
    }
}

/// The writes of a history whose commit was done, in the order of the commits.
pub open spec fn committed_by<D, A>(history: Seq<(int, WriteReply<D>)>) -> Seq<int>
    decreases history.len(),
{
    if history.len() == 0 {
        Seq::empty()
    } else {
        let earlier = history.drop_last();
        let w = history.last().0;
        if step_of::<D, A>(earlier, w) is Commit && history.last().1 is Done {
            committed_by::<D, A>(earlier).push(w)
        } else {
            committed_by::<D, A>(earlier)
        }
    }
}

/// The rows of these writes.
pub open spec fn rows_of<C, R, D, A>(
    writes: Seq<WriteTransaction<C, R, D, A>>,
    which: Seq<int>,
) -> Seq<R> {
    which.map_values(|w: int| writes[w].record_batch())
}

/// The last reply of a history takes the write that it came to one step further
/// and leaves every other write where it was.
pub(crate) proof fn lemma_last_reply<D, A>(history: Seq<(int, WriteReply<D>)>, w: int)
    requires
        history.len() > 0,
    ensures
        step_of::<D, A>(history, w) == (if history.last().0 == w {
            step_after(step_of::<D, A>(history.drop_last(), w), history.last().1)
        } else {
            step_of::<D, A>(history.drop_last(), w)
        }),
{
    law_one_reply_more_is_one_step_more::<D, A>(
        WriteStep::Lock,
        replies_to(history.drop_last(), w),
        history.last().1,
    );
}

/// Two writes through one connection never hold its lock at the same time, so
/// that their transactions do not overlap.
pub proof fn law_writes_do_not_overlap<C, R, D, A>(
    writes: Seq<WriteTransaction<C, R, D, A>>,
    history: Seq<(int, WriteReply<D>)>,
    v: int,
    w: int,
)
    requires
        locks_exclude(writes, history),
        0 <= v < writes.len(),
        0 <= w < writes.len(),
        v != w,
        writes[v].connection() == writes[w].connection(),
    ensures
        !(holds_lock::<D, A>(history, v) && holds_lock::<D, A>(history, w)),
    decreases history.len(),
{
    if history.len() > 0 {
        let earlier = history.drop_last();
        law_writes_do_not_overlap(writes, earlier, v, w);
        lemma_last_reply::<D, A>(history, v);
        lemma_last_reply::<D, A>(history, w);
        if step_of::<D, A>(earlier, history.last().0) is Lock {
            assert(history.last().0 == v ==> !holds_lock::<D, A>(earlier, w));
            assert(history.last().0 == w ==> !holds_lock::<D, A>(earlier, v));
        }
    }
}

/// The writes whose commit was done are exactly those that succeeded, and none
/// is committed twice.
pub proof fn law_committed_are_those_that_succeeded<D, A>(history: Seq<(int, WriteReply<D>)>)
    ensures
        committed_by::<D, A>(history).no_duplicates(),
        forall|w: int| #[trigger]
            committed_by::<D, A>(history).contains(w) <==> step_of::<D, A>(history, w)
                == WriteStep::<D, A>::Finished(Ok(())),
    decreases history.len(),
{
    if history.len() > 0 {
        let earlier = history.drop_last();
        let u = history.last().0;
        let before = committed_by::<D, A>(earlier);
        let after = committed_by::<D, A>(history);
        law_committed_are_those_that_succeeded::<D, A>(earlier);
        assert forall|w: int| #[trigger] after.contains(w) <==> step_of::<D, A>(history, w)
            == WriteStep::<D, A>::Finished(Ok(())) by {
            lemma_last_reply::<D, A>(history, w);
            assert(before.contains(w) <==> step_of::<D, A>(earlier, w) == WriteStep::<
                D,
                A,
            >::Finished(Ok(())));
            if after != before {
                assert(after[after.len() - 1] == u);
                if before.contains(w) {
                    let k = before.index_of(w);
                    assert(after[k] == w);
                }
            }
        }
        if after != before {
            assert(!before.contains(u));
        }
    }
}

/// The transaction that is open while a write that holds the lock is at `step`.
spec fn open_at<R, D, A>(step: WriteStep<D, A>, rows: R) -> Option<Seq<R>> {
    match step {
        WriteStep::OpenAppender | WriteStep::Append => Some(Seq::empty()),
        WriteStep::Flush | WriteStep::Commit => Some(Seq::empty().push(rows)),
        _ => None,
    }
}

/// While one write holds the lock the open transaction is its own; while none
/// does there is no open transaction.
proof fn lemma_open_is_of_the_holder<C, R, D, A>(
    writes: Seq<WriteTransaction<C, R, D, A>>,
    before: TableState<R>,
    history: Seq<(int, WriteReply<D>)>,
)
    requires
        on_one_connection(writes),
        locks_exclude(writes, history),
        before.open is None,
    ensures
        forall|w: int|
            0 <= w < writes.len() && #[trigger] holds_lock::<D, A>(history, w) ==> table_after(
                writes,
                before,
                history,
            ).open == open_at(step_of::<D, A>(history, w), writes[w].record_batch()),
        locks_are_free::<D, A>(history, writes.len()) ==> table_after(
            writes,
            before,
            history,
        ).open is None,
    decreases history.len(),
{
    if history.len() > 0 {
        let earlier = history.drop_last();
        let u = history.last().0;
        let step = step_of::<D, A>(earlier, u);
        let now = table_after(writes, before, history);
        lemma_open_is_of_the_holder(writes, before, earlier);
        lemma_last_reply::<D, A>(history, u);
        assert forall|w: int|
            0 <= w < writes.len() && w != u && !(step is Finished) implies !#[trigger] holds_lock::<
            D,
            A,
        >(earlier, w) by {
            assert(writes[w].connection() == writes[u].connection());
            law_writes_do_not_overlap(writes, earlier, w, u);
        }
        if step is Lock {
            assert(!holds_lock::<D, A>(earlier, u));
            assert(locks_are_free::<D, A>(earlier, writes.len()));
        }
        if holds_lock::<D, A>(earlier, u) {
            assert(table_after(writes, before, earlier).open == open_at(
                step,
                writes[u].record_batch(),
            ));
        }
        assert forall|w: int|
            0 <= w < writes.len() && #[trigger] holds_lock::<D, A>(history, w) implies now.open
            == open_at(step_of::<D, A>(history, w), writes[w].record_batch()) by {
            lemma_last_reply::<D, A>(history, w);
            if w != u {
                assert(holds_lock::<D, A>(earlier, w));
            }
        }
        if locks_are_free::<D, A>(history, writes.len()) {
            assert(!holds_lock::<D, A>(history, u));
            if step is Finished {
                assert forall|w: int| 0 <= w < writes.len() implies !#[trigger] holds_lock::<D, A>(
                    earlier,
                    w,
                ) by {
                    lemma_last_reply::<D, A>(history, w);
                    assert(!holds_lock::<D, A>(history, w));
                }
            }
        }
    }
}

/// The table holds what it held before and then the rows of the writes that
/// were committed, each whole and once, in the order of the commits. Where no
/// write holds the lock, no transaction is left open.
pub proof fn law_table_holds_the_committed_rows<C, R, D, A>(
    writes: Seq<WriteTransaction<C, R, D, A>>,
    before: TableState<R>,
    history: Seq<(int, WriteReply<D>)>,
)
    requires
        on_one_connection(writes),
        locks_exclude(writes, history),
        before.open is None,
    ensures
        table_after(writes, before, history).committed == before.committed + rows_of(
            writes,
            committed_by::<D, A>(history),
        ),
        locks_are_free::<D, A>(history, writes.len()) ==> table_after(
            writes,
            before,
            history,
        ).open is None,
    decreases history.len(),
{
    lemma_open_is_of_the_holder(writes, before, history);
    if history.len() == 0 {
        assert(before.committed + rows_of(writes, committed_by::<D, A>(history))
            =~= before.committed);
    } else {
        let earlier = history.drop_last();
        let u = history.last().0;
        let rows = writes[u].record_batch();
        law_table_holds_the_committed_rows(writes, before, earlier);
        lemma_open_is_of_the_holder(writes, before, earlier);
        if step_of::<D, A>(earlier, u) is Commit && history.last().1 is Done {
            assert(holds_lock::<D, A>(earlier, u));
            let which = committed_by::<D, A>(earlier);
            assert(rows_of(writes, which.push(u)) =~= rows_of(writes, which).push(rows));
            assert(table_after(writes, before, history).committed =~= before.committed + rows_of(
                writes,
                which.push(u),
            ));
        }
    }
}

/// Two calls, of one service or of two on its connection such as a clone, do not
/// disturb each other, whichever way their operations come about. Once both
/// have ended the table holds what it held before, then the rows of each call
/// that succeeded and nothing of one that failed, and no transaction is open.
pub proof fn law_two_calls_do_not_disturb_each_other<C, S: Clone, P, F, G, R, D, A>(
    service: DuckdbService<C, S>,
    request: DuckdbRequest<P, F, G>,
    call: DuckdbCall<C, S, P, F, G>,
    rows: R,
    write: WriteTransaction<C, R, D, A>,
    pending: PendingResponse<P, F, G>,
    other_service: DuckdbService<C, S>,
    other_request: DuckdbRequest<P, F, G>,
    other_call: DuckdbCall<C, S, P, F, G>,
    other_rows: R,
    other_write: WriteTransaction<C, R, D, A>,
    other_pending: PendingResponse<P, F, G>,
    before: TableState<R>,
    history: Seq<(int, WriteReply<D>)>,
)
    requires
        other_service.connection() == service.connection(),
        other_service.database() == service.database(),
        other_service.table() == service.table(),
        service.starts(request, call),
        call.continues_with(rows, write, pending),
        other_service.starts(other_request, other_call),
        other_call.continues_with(other_rows, other_write, other_pending),
        locks_exclude(seq![write, other_write], history),
        step_of::<D, A>(history, 0) is Finished,
        step_of::<D, A>(history, 1) is Finished,
        before.open is None,
    ensures
        ({
            let after = table_after(seq![write, other_write], before, history);
            let end = end_of_call(Ok::<R, A>(rows), replies_to(history, 0), None);
            let other_end = end_of_call(Ok::<R, A>(other_rows), replies_to(history, 1), None);
            &&& after.open is None
            &&& match (end, other_end) {
                (Ok(_), Ok(_)) => {
                    ||| after.committed == before.committed + seq![rows, other_rows]
                    ||| after.committed == before.committed + seq![other_rows, rows]
                },
                (Ok(_), Err(_)) => after.committed == before.committed + seq![rows],
                (Err(_), Ok(_)) => after.committed == before.committed + seq![other_rows],
                (Err(_), Err(_)) => after.committed == before.committed,
            }
        }),
{
    let writes = seq![write, other_write];
    let which = committed_by::<D, A>(history);
    law_table_holds_the_committed_rows(writes, before, history);
    law_committed_are_those_that_succeeded::<D, A>(history);
    lemma_committed_are_writes(writes, history);
    lemma_success_is_ok::<D, A>(step_of::<D, A>(history, 0));
    lemma_success_is_ok::<D, A>(step_of::<D, A>(history, 1));
    assert(which.contains(0) <==> step_of::<D, A>(history, 0) == WriteStep::<D, A>::Finished(
        Ok(()),
    ));
    assert(which.contains(1) <==> step_of::<D, A>(history, 1) == WriteStep::<D, A>::Finished(
        Ok(()),
    ));
    lemma_sequences_of_two(which);
    assert(rows_of(writes, seq![0int, 1int]) =~= seq![rows, other_rows]);
    assert(rows_of(writes, seq![1int, 0int]) =~= seq![other_rows, rows]);
    assert(rows_of(writes, seq![0int]) =~= seq![rows]);
    assert(rows_of(writes, seq![1int]) =~= seq![other_rows]);
    assert(rows_of(writes, Seq::<int>::empty()) =~= Seq::<R>::empty());
    assert(before.committed + Seq::<R>::empty() =~= before.committed);
}

/// Only writes of the history are committed.
pub(crate) proof fn lemma_committed_are_writes<C, R, D, A>(
    writes: Seq<WriteTransaction<C, R, D, A>>,
    history: Seq<(int, WriteReply<D>)>,
)
    requires
        locks_exclude(writes, history),
    ensures
        forall|i: int|
            0 <= i < committed_by::<D, A>(history).len() ==> 0 <= #[trigger] committed_by::<D, A>(
                history,
            )[i] < writes.len(),
    decreases history.len(),
{
    if history.len() > 0 {
        let earlier = history.drop_last();
        lemma_committed_are_writes(writes, earlier);
        assert forall|i: int| 0 <= i < committed_by::<D, A>(history).len() implies 0
            <= #[trigger] committed_by::<D, A>(history)[i] < writes.len() by {
            if i < committed_by::<D, A>(earlier).len() {
                assert(committed_by::<D, A>(history)[i] == committed_by::<D, A>(earlier)[i]);
            }
        }
    }
}

/// A write that ended without an error succeeded.
pub(crate) proof fn lemma_success_is_ok<D, A>(step: WriteStep<D, A>)
    ensures
        step matches WriteStep::Finished(end) ==> (end is Ok <==> step == WriteStep::<
            D,
            A,
        >::Finished(Ok(()))),
{
    if let WriteStep::Finished(Ok(unit)) = step {
        assert(unit == ());
    }
}

/// The sequences without duplicates over zero and one.
pub(crate) proof fn lemma_sequences_of_two(which: Seq<int>)
    requires
        which.no_duplicates(),
        forall|i: int| 0 <= i < which.len() ==> 0 <= #[trigger] which[i] < 2,
    ensures
        which.contains(0) && which.contains(1) ==> which == seq![0int, 1int] || which == seq![
            1int,
            0int,
        ],
        which.contains(0) && !which.contains(1) ==> which == seq![0int],
        !which.contains(0) && which.contains(1) ==> which == seq![1int],
        !which.contains(0) && !which.contains(1) ==> which == Seq::<int>::empty(),
{
    if which.len() > 2 {
        assert(which[0] != which[1] && which[1] != which[2] && which[0] != which[2]);
    }
    if which.len() == 2 {
        assert(which[0] != which[1]);
        assert(which =~= seq![0int, 1int] || which =~= seq![1int, 0int]);
    } else if which.len() == 1 {
        assert(which[0] == 0 || which[0] == 1);
        assert(which =~= seq![0int] || which =~= seq![1int]);
        assert(which =~= seq![0int] ==> !which.contains(1));
    } else {
        assert(which =~= Seq::<int>::empty());
    }
}

} // verus!
