//! Requests: batches of events that are ready to be written.

use crate::error::DuckdbServiceError;
use vstd::prelude::*;

verus! {

/// Handles through which the sources of events learn what became of them, in
/// the order in which they were attached. `F` is one such handle.
#[derive(Debug, Clone)]
pub struct EventFinalizers<F> {
    pub handles: Vec<F>,
}

impl<F> View for EventFinalizers<F> {
    type V = Seq<F>;

    open spec fn view(&self) -> Seq<F> {
        self.handles@
    }
}

impl<F> EventFinalizers<F> {
    /// Takes all handles out and leaves none behind.
    pub fn take_finalizers(&mut self) -> (taken: EventFinalizers<F>)
        ensures
            taken@ == old(self)@,
            final(self)@ == Seq::<F>::empty(),
    {
        let mut handles: Vec<F> = Vec::new();
        std::mem::swap(&mut handles, &mut self.handles);
        EventFinalizers { handles }
    }

    /// Adds the handles of `other` behind those already held.
    pub fn merge(&mut self, other: EventFinalizers<F>)
        ensures
            final(self)@ == old(self)@ + other@,
    {
        let mut other_handles = other.handles;
        self.handles.append(&mut other_handles);
    }
}

/// An event on its way to the database. `P` is what the serializer encodes; it
/// is only carried along.
#[derive(Debug, Clone)]
pub struct Event<P, F> {
    pub payload: P,
    pub finalizers: EventFinalizers<F>,
}

/// The handles of all events, in the order of the events.
pub open spec fn all_finalizers<P, F>(events: Seq<Event<P, F>>) -> Seq<F>
    decreases events.len(),
{
    if events.len() == 0 {
        Seq::empty()
    } else {
        all_finalizers(events.drop_last()) + events.last().finalizers@
    }
}

/// Whether `after` holds the payloads of `before`, in their order, with no
/// handle left on any event.
pub open spec fn stripped_of_finalizers<P, F>(
    before: Seq<Event<P, F>>,
    after: Seq<Event<P, F>>,
) -> bool {
    &&& after.len() == before.len()
    &&& forall|i: int|
        #![trigger after[i]]
        0 <= i < after.len() ==> after[i].payload == before[i].payload
            && after[i].finalizers@ == Seq::<F>::empty()
}

/// Takes the handles off all events.
pub fn take_all_finalizers<P, F>(events: &mut Vec<Event<P, F>>) -> (taken: EventFinalizers<F>)
    ensures
        taken@ == all_finalizers(old(events)@),
        stripped_of_finalizers(old(events)@, final(events)@),
{
    let ghost before = events@;
    let mut taken: EventFinalizers<F> = EventFinalizers { handles: Vec::new() };
    let mut i: usize = 0;
    while i < events.len()
        invariant
            before == old(events)@,
            i <= events@.len(),
            events@.len() == before.len(),
            taken@ == all_finalizers(before.take(i as int)),
            forall|j: int|
                #![trigger events@[j]]
                0 <= j < i ==> events@[j].payload == before[j].payload
                    && events@[j].finalizers@ == Seq::<F>::empty(),
            forall|j: int| i <= j < before.len() ==> events@[j] == before[j],
        decreases events@.len() - i,
    {
        let handles = events[i].finalizers.take_finalizers();
        taken.merge(handles);
        i += 1;
        assert(before.take(i as int).drop_last() =~= before.take(i - 1));
    }
    assert(before.take(i as int) =~= before);
    taken
}

/// What the pipeline reports of a request. `G` holds the number of events and
/// their estimated JSON size as the pipeline groups them.
#[derive(Debug, Clone)]
pub struct RequestMetadata<G> {
    pub events_estimated_json_encoded_byte_size: G,
    pub request_encoded_size: usize,
}

/// A batch of events that is ready to be written.
#[derive(Debug, Clone)]
pub struct DuckdbRequest<P, F, G> {
    pub events: Vec<Event<P, F>>,
    pub finalizers: EventFinalizers<F>,
    pub metadata: RequestMetadata<G>,
}

impl<P, F, G> DuckdbRequest<P, F, G> {
    /// Whether the request is the one made of a batch with these figures: it
    /// holds the payloads and the handles of the events, each in their order,
    /// and reports the figures.
    pub open spec fn made_of(
        &self,
        events: Seq<Event<P, F>>,
        grouped_size: G,
        events_size: usize,
    ) -> bool {
        &&& stripped_of_finalizers(events, self.events@)
        &&& self.finalizers@ == all_finalizers(events)
        &&& self.metadata == RequestMetadata {
            events_estimated_json_encoded_byte_size: grouped_size,
            request_encoded_size: events_size,
        }
    }

    /// Makes a request of a batch. The handles move from the events to the
    /// request. `grouped_size` and `events_size`, the estimated size of the
    /// batch as JSON, are measured on the payloads by whoever owns the event
    /// model; a batch that measures nothing is refused.
    pub fn try_from<D, A>(events: Vec<Event<P, F>>, grouped_size: G, events_size: usize) -> (made:
        Result<Self, DuckdbServiceError<D, A>>)
        ensures
            made is Ok <==> events_size != 0,
            made matches Ok(request) ==> request.made_of(events@, grouped_size, events_size),
            made matches Err(error) ==> error == DuckdbServiceError::<D, A>::EmptyPayload,
    {
        let mut events = events;
        let finalizers = take_all_finalizers(&mut events);
        if events_size == 0 {
            return Err(DuckdbServiceError::EmptyPayload);
        }
        let metadata = RequestMetadata {
            events_estimated_json_encoded_byte_size: grouped_size,
            request_encoded_size: events_size,
        };
        Ok(DuckdbRequest { events, finalizers, metadata })
    }

    /// Takes the handles out of the request and leaves none behind.
    pub fn take_finalizers(&mut self) -> (taken: EventFinalizers<F>)
        ensures
            taken@ == old(self).finalizers@,
            final(self).finalizers@ == Seq::<F>::empty(),
            final(self).events == old(self).events,
            final(self).metadata == old(self).metadata,
    {
        self.finalizers.take_finalizers()
    }

    /// What the pipeline reports of the request.
    pub fn get_metadata(&self) -> (metadata: &RequestMetadata<G>)
        ensures
            *metadata == self.metadata,
    {
        &self.metadata
    }

    /// What the pipeline reports of the request, to be changed in place.
    pub fn metadata_mut(&mut self) -> (metadata: &mut RequestMetadata<G>)
        ensures
            *metadata == old(self).metadata,
            final(self).metadata == *final(metadata),
            final(self).events == old(self).events,
            final(self).finalizers == old(self).finalizers,
    {
        &mut self.metadata
    }
}

/// A handle is among those of the batch exactly if it was attached to one of
/// the events: gathering neither loses a handle nor makes one up.
pub proof fn law_handles_are_those_of_the_events<P, F>(events: Seq<Event<P, F>>, handle: F)
    ensures
        all_finalizers(events).contains(handle) <==> exists|i: int|
            0 <= i < events.len() && #[trigger] events[i].finalizers@.contains(handle),
    decreases events.len(),
{
    if events.len() > 0 {
        let rest = events.drop_last();
        let last = events.last().finalizers@;
        law_handles_are_those_of_the_events(rest, handle);
        if all_finalizers(events).contains(handle) {
            let k = all_finalizers(events).index_of(handle);
            if k < all_finalizers(rest).len() {
                assert(all_finalizers(rest)[k] == handle);
                let i = choose|i: int|
                    0 <= i < rest.len() && #[trigger] rest[i].finalizers@.contains(handle);
                assert(events[i].finalizers@.contains(handle));
            } else {
                assert(last[k - all_finalizers(rest).len()] == handle);
                assert(events[events.len() - 1].finalizers@.contains(handle));
            }
        }
        if exists|i: int| 0 <= i < events.len() && #[trigger] events[i].finalizers@.contains(handle) {
            let i = choose|i: int|
                0 <= i < events.len() && #[trigger] events[i].finalizers@.contains(handle);
            if i < rest.len() {
                assert(rest[i].finalizers@.contains(handle));
                let k = all_finalizers(rest).index_of(handle);
                assert(all_finalizers(events)[k] == handle);
            } else {
                let k = last.index_of(handle);
                assert(all_finalizers(events)[all_finalizers(rest).len() + k] == handle);
            }
        }
    }
}

/// Two batches in a row carry the handles of the first and then those of the
/// second.
pub proof fn law_handles_keep_the_order_of_the_events<P, F>(
    first: Seq<Event<P, F>>,
    second: Seq<Event<P, F>>,
)
    ensures
        all_finalizers(first + second) == all_finalizers(first) + all_finalizers(second),
    decreases second.len(),
{
    if second.len() == 0 {
        assert(first + second =~= first);
        assert(all_finalizers(first) + all_finalizers(second) =~= all_finalizers(first));
    } else {
        assert((first + second).drop_last() =~= first + second.drop_last());
        law_handles_keep_the_order_of_the_events(first, second.drop_last());
        assert(all_finalizers(first + second) =~= all_finalizers(first) + all_finalizers(second));
    }
}

/// Events without handles give a batch without handles: what a request was made
/// of has nothing left to take.
pub proof fn law_stripped_events_have_no_handles<P, F>(
    before: Seq<Event<P, F>>,
    after: Seq<Event<P, F>>,
)
    requires
        stripped_of_finalizers(before, after),
    ensures
        all_finalizers(after) == Seq::<F>::empty(),
    decreases after.len(),
{
    if after.len() > 0 {
        let rest = after.drop_last();
        assert(after[after.len() - 1].finalizers@ == Seq::<F>::empty());
        assert forall|i: int| #![trigger rest[i]] 0 <= i < rest.len() implies
            rest[i].payload == before.drop_last()[i].payload
            && rest[i].finalizers@ == Seq::<F>::empty() by {
            assert(rest[i] == after[i]);
        }
        law_stripped_events_have_no_handles(before.drop_last(), rest);
        assert(all_finalizers(after) =~= Seq::<F>::empty());
    }
}

/// The handles of one event alone are its own.
pub proof fn law_handles_of_one_event_are_its_own<P, F>(event: Event<P, F>)
    ensures
        all_finalizers(seq![event]) == event.finalizers@,
{
    assert(seq![event].drop_last() =~= Seq::empty());
    assert(all_finalizers(seq![event].drop_last()) =~= Seq::empty());
    assert(all_finalizers(seq![event]) =~= event.finalizers@);
}

/// Handles are handed out whole and once: what is taken is what was held, and
/// what is taken next is nothing.
pub proof fn law_handles_are_taken_once<F>(
    held: EventFinalizers<F>,
    taken: EventFinalizers<F>,
    left: EventFinalizers<F>,
    again: EventFinalizers<F>,
    last: EventFinalizers<F>,
)
    requires
        exists|held_mut: &mut EventFinalizers<F>|
            *held_mut == held && *final(held_mut) == left && call_ensures(
                EventFinalizers::<F>::take_finalizers,
                (held_mut,),
                taken,
            ),
        exists|left_mut: &mut EventFinalizers<F>|
            *left_mut == left && *final(left_mut) == last && call_ensures(
                EventFinalizers::<F>::take_finalizers,
                (left_mut,),
                again,
            ),
    ensures
        taken.handles@ == held.handles@,
        again.handles@.len() == 0,
        last.handles@.len() == 0,
{
}

/// Merged handles are taken out again, first those that were held and then
/// those that were added.
pub proof fn law_merged_handles_are_taken_in_order<F>(
    held: EventFinalizers<F>,
    added: EventFinalizers<F>,
    merged: EventFinalizers<F>,
    taken: EventFinalizers<F>,
)
    requires
        exists|held_mut: &mut EventFinalizers<F>|
            *held_mut == held && *final(held_mut) == merged && call_ensures(
                EventFinalizers::<F>::merge,
                (held_mut, added),
                (),
            ),
        exists|merged_mut: &mut EventFinalizers<F>|
            *merged_mut == merged && call_ensures(
                EventFinalizers::<F>::take_finalizers,
                (merged_mut,),
                taken,
            ),
    ensures
        taken.handles@ == held.handles@ + added.handles@,
{
}

/// Taking the handles off a batch leaves every payload where it was and no
/// handle on any event. Of two batches in a row it takes what it takes of the
/// first and then what it takes of the second, and of one event its handles.
pub proof fn law_batch_gives_up_its_handles_and_nothing_else<P, F>(
    first: Vec<Event<P, F>>,
    first_taken: EventFinalizers<F>,
    second: Vec<Event<P, F>>,
    second_taken: EventFinalizers<F>,
    both: Vec<Event<P, F>>,
    both_left: Vec<Event<P, F>>,
    both_taken: EventFinalizers<F>,
)
    requires
        both@ == first@ + second@,
        exists|events: &mut Vec<Event<P, F>>|
            *events == first && call_ensures(
                take_all_finalizers::<P, F>,
                (events,),
                first_taken,
            ),
        exists|events: &mut Vec<Event<P, F>>|
            *events == second && call_ensures(
                take_all_finalizers::<P, F>,
                (events,),
                second_taken,
            ),
        exists|events: &mut Vec<Event<P, F>>|
            *events == both && *final(events) == both_left && call_ensures(
                take_all_finalizers::<P, F>,
                (events,),
                both_taken,
            ),
    ensures
        both_taken.handles@ == first_taken.handles@ + second_taken.handles@,
        first@.len() == 1 ==> first_taken.handles@ == first@[0].finalizers.handles@,
        first@.len() == 0 ==> first_taken.handles@.len() == 0,
        both_left@.len() == both@.len(),
        forall|i: int|
            0 <= i < both@.len() ==> (#[trigger] both_left@[i]).payload == both@[i].payload
                && both_left@[i].finalizers.handles@.len() == 0,
{
    law_handles_keep_the_order_of_the_events(first@, second@);
    if first@.len() == 1 {
        law_handles_of_one_event_are_its_own(first@[0]);
        assert(first@ =~= seq![first@[0]]);
    }
}

/// A request is refused exactly if its batch has no size. Otherwise it holds
/// every event of the batch, however many there are, each in its place with its
/// payload and without handles; it holds the handles that taking them off the
/// batch gives; and it reports the figures it was given.
pub proof fn law_request_holds_its_whole_batch<P, F, G, D, A>(
    events: Vec<Event<P, F>>,
    grouped_size: G,
    events_size: usize,
    made: Result<DuckdbRequest<P, F, G>, DuckdbServiceError<D, A>>,
    taken: EventFinalizers<F>,
)
    requires
        call_ensures(
            DuckdbRequest::<P, F, G>::try_from::<D, A>,
            (events, grouped_size, events_size),
            made,
        ),
        exists|batch: &mut Vec<Event<P, F>>|
            *batch == events && call_ensures(take_all_finalizers::<P, F>, (batch,), taken),
    ensures
        match made {
            Ok(request) => {
                &&& events_size > 0
                &&& request.events@.len() == events@.len()
                &&& forall|i: int|
                    0 <= i < events@.len() ==> (#[trigger] request.events@[i]).payload
                        == events@[i].payload && request.events@[i].finalizers.handles@.len() == 0
                &&& request.finalizers.handles@ == taken.handles@
                &&& request.metadata.request_encoded_size == events_size
                &&& request.metadata.events_estimated_json_encoded_byte_size == grouped_size
            },
            Err(error) => events_size == 0 && error is EmptyPayload,
        },
{
}

/// The same of the request that is said to be made of a batch.
pub proof fn law_request_made_of_a_batch_holds_all_of_it<P, F, G>(
    request: DuckdbRequest<P, F, G>,
    events: Seq<Event<P, F>>,
    grouped_size: G,
    events_size: usize,
)
    requires
        request.made_of(events, grouped_size, events_size),
    ensures
        request.events@.len() == events.len(),
        forall|i: int|
            0 <= i < events.len() ==> (#[trigger] request.events@[i]).payload == events[i].payload,
        forall|i: int, j: int|
            0 <= i < events.len() && 0 <= j < events[i].finalizers@.len()
                ==> request.finalizers@.contains(#[trigger] events[i].finalizers@[j]),
        request.metadata.request_encoded_size == events_size,
        request.metadata.events_estimated_json_encoded_byte_size == grouped_size,
{
    assert forall|i: int, j: int|
        0 <= i < events.len() && 0 <= j
            < events[i].finalizers@.len() implies request.finalizers@.contains(
        #[trigger] events[i].finalizers@[j],
    ) by {
        law_handles_are_those_of_the_events(events, events[i].finalizers@[j]);
        assert(events[i].finalizers@.contains(events[i].finalizers@[j]));
    }
}

/// Taking the handles of a request gives all of them once and leaves its events
/// and its metadata alone.
pub proof fn law_request_gives_its_handles_once<P, F, G>(
    request: DuckdbRequest<P, F, G>,
    taken: EventFinalizers<F>,
    left: DuckdbRequest<P, F, G>,
    again: EventFinalizers<F>,
)
    requires
        exists|request_mut: &mut DuckdbRequest<P, F, G>|
            *request_mut == request && *final(request_mut) == left && call_ensures(
                DuckdbRequest::<P, F, G>::take_finalizers,
                (request_mut,),
                taken,
            ),
        exists|left_mut: &mut DuckdbRequest<P, F, G>|
            *left_mut == left && call_ensures(
                DuckdbRequest::<P, F, G>::take_finalizers,
                (left_mut,),
                again,
            ),
    ensures
        taken.handles@ == request.finalizers.handles@,
        again.handles@.len() == 0,
        left.events == request.events,
        left.metadata == request.metadata,
{
}

/// What is read of the metadata is what the request holds, and what was written
/// to it in place is read back, with nothing else of the request changed.
pub proof fn law_metadata_reads_back_what_was_written<P, F, G>(
    request: DuckdbRequest<P, F, G>,
    read: &RequestMetadata<G>,
    written: RequestMetadata<G>,
    changed: DuckdbRequest<P, F, G>,
    read_back: &RequestMetadata<G>,
)
    requires
        call_ensures(DuckdbRequest::<P, F, G>::get_metadata, (&request,), read),
        exists|request_mut: &mut DuckdbRequest<P, F, G>, metadata: &mut RequestMetadata<G>|
            *request_mut == request && *final(request_mut) == changed && *final(metadata)
                == written && #[trigger] call_ensures(
                DuckdbRequest::<P, F, G>::metadata_mut,
                (request_mut,),
                metadata,
            ),
        call_ensures(DuckdbRequest::<P, F, G>::get_metadata, (&changed,), read_back),
    ensures
        *read == request.metadata,
        *read_back == written,
        changed.events == request.events,
        changed.finalizers == request.finalizers,
{
}

} // verus!
