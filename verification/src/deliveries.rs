//! What calls of the library come to, said of what goes into them and what comes out: how messages
//! are driven into streams, and out of them again.
use crate::backend::BackendReceiver;
use crate::client::{
    driver_outcome, driver_polled, ClientDriver, ClientDriverError, PendingRequest, RequestError,
    ServerNotificationStream, ServerNotifications,
};
use crate::laws::{
    broadcast_delivers_once, ending_wakes_once_per_waiter, everything_is_delivered,
    filtered_notifications_have_no_id, got, leftovers_are_what_is_left, notifications_have_no_id,
    receivers_with, reply_reaches_its_request, times, waiters_with,
    wakers_are_woken_once_per_receiver,
};
use crate::raw_response::{decoded, RawResponse, ResponseError, ResponseView};
use crate::response::Response;
use crate::response_stream::{
    lemma_place, poll_step, polled_message, received_message, Filter, InnerView, NextMessage, Poll,
    ResponseStream, ResponseStreamError, ResponseStreamHandle, ResponseStreamInner,
    ResponseStreamItem, ResponseStreamMaster, StreamView,
};
use vstd::prelude::*;

verus! {

/// The ID that a response states.
pub open spec fn stated_id(response: ResponseView) -> Option<Seq<char>> {
    match response {
        ResponseView::Success(ok) => ok.id,
        ResponseView::Error(error) => error.id,
    }
}

/// The version that a response states.
pub open spec fn stated_version(response: ResponseView) -> Seq<char> {
    match response {
        ResponseView::Success(ok) => ok.jsonrpc,
        ResponseView::Error(error) => error.jsonrpc,
    }
}

/// The response that some bytes hold, if it states version 2.0.
pub open spec fn response_in(bytes: Seq<u8>) -> Option<ResponseView> {
    match decoded(bytes) {
        Some(response) => if stated_version(response) == "2.0"@ {
            Some(response)
        } else {
            None
        },
        None => None,
    }
}

/// Whether a message has been broadcast between two states, and these have been woken for it.
/// Every stream whose filter takes the message has it behind what it had before, and if it waited
/// it has been woken and waits no more; no other stream has noticed, and nobody else is woken.
pub open spec fn has_been_broadcast<W, F: Fn(&RawResponse<'_>) -> bool>(
    message: ResponseStreamItem,
    before: InnerView<W, F>,
    after: InnerView<W, F>,
    wakers: Seq<W>,
) -> bool {
    &&& after.hub == before.hub
    &&& after.done == before.done
    &&& after.next_id == before.next_id
    &&& after.instances.len() == before.instances.len()
    &&& forall|i: int|
        #![trigger after.instances[i]]
        #![trigger before.instances[i]]
        0 <= i < before.instances.len() ==> has_been_offered(message, before, after, wakers, i)
    &&& forall|waker: W| #[trigger]
        wakers.contains(waker) ==> exists|i: int|
            0 <= i < before.instances.len() && (#[trigger] before.instances[i]).waker == Some(waker)
                && got(before, after, message, i)
}

/// What a broadcast does to the stream at `i`.
pub open spec fn has_been_offered<W, F: Fn(&RawResponse<'_>) -> bool>(
    message: ResponseStreamItem,
    before: InnerView<W, F>,
    after: InnerView<W, F>,
    wakers: Seq<W>,
    i: int,
) -> bool {
    let was = before.instances[i];
    let is = after.instances[i];
    let reached = is.queue == was.queue.push(message);
    let id = stated_id(message@);
    &&& is.id == was.id
    &&& is.filter == was.filter
    &&& !reached ==> is == was
    &&& reached ==> is.waker is None && (was.waker matches Some(waker) ==> wakers.contains(waker))
    &&& match was.filter {
        Filter::Everything => reached,
        Filter::Reply(text) => reached == (id == Some(text@)),
        Filter::Notifications => reached == (id is None),
        Filter::Matching(f) => if id is Some {
            !reached
        } else {
            call_ensures(*f, (&*message,), reached)
        },
        Filter::Leftovers => reached == (id is None && forall|j: int|
            0 <= j < before.instances.len() && !((#[trigger] before.instances[j]).filter is Leftovers)
                ==> !got(before, after, message, j)),
    }
}

proof fn lemma_times_contains<W>(wakers: Seq<W>, waker: W)
    ensures
        times(wakers, waker) > 0 <==> wakers.contains(waker),
    decreases wakers.len(),
{
    if wakers.len() > 0 {
        let shorter = wakers.drop_last();
        lemma_times_contains(shorter, waker);
        if shorter.contains(waker) {
            let i = choose|i: int| 0 <= i < shorter.len() && shorter[i] == waker;
            assert(wakers[i] == waker);
        }
        if wakers.contains(waker) {
            let i = choose|i: int| 0 <= i < wakers.len() && wakers[i] == waker;
            if i < shorter.len() {
                assert(shorter[i] == waker);
            }
        }
        if wakers.last() == waker {
            assert(wakers[wakers.len() - 1] == waker);
        }
    }
}

proof fn lemma_some_receiver<W, F>(
    before: InnerView<W, F>,
    after: InnerView<W, F>,
    message: ResponseStreamItem,
    waker: W,
    n: nat,
)
    requires
        n <= before.instances.len(),
    ensures
        receivers_with(before, after, message, waker, n) > 0 <==> exists|i: int|
            0 <= i < n && (#[trigger] before.instances[i]).waker == Some(waker) && got(
                before,
                after,
                message,
                i,
            ),
    decreases n,
{
    if n > 0 {
        lemma_some_receiver(before, after, message, waker, (n - 1) as nat);
        assert(before.instances[n - 1] == before.instances[n - 1]);
    }
}

proof fn lemma_some_waiter<W, F>(inner: InnerView<W, F>, waker: W, n: nat)
    requires
        n <= inner.instances.len(),
    ensures
        waiters_with(inner, waker, n) > 0 <==> exists|i: int|
            0 <= i < n && (#[trigger] inner.instances[i]).waker == Some(waker),
    decreases n,
{
    if n > 0 {
        lemma_some_waiter(inner, waker, (n - 1) as nat);
        assert(inner.instances[n - 1] == inner.instances[n - 1]);
    }
}

proof fn lemma_offered<W, F: Fn(&RawResponse<'_>) -> bool>(
    message: ResponseStreamItem,
    before: InnerView<W, F>,
    after: InnerView<W, F>,
    wakers: Seq<W>,
    i: int,
)
    requires
        before.wf(),
        before.may_broadcast(message, after, wakers),
        0 <= i < before.instances.len(),
    ensures
        has_been_offered(message, before, after, wakers, i),
{
    let was = before.instances[i];
    broadcast_delivers_once(before, message, after, wakers, i);
    if got(before, after, message, i) {
        let chosen = choose|chosen: Seq<bool>| #[trigger]
            before.may_answer(*message, chosen) && after == before.delivered(message, chosen)
                && wakers == before.woken(message, chosen, before.instances.len());
        if let Some(waker) = was.waker {
            wakers_are_woken_once_per_receiver(before, message, after, wakers, waker);
            lemma_some_receiver(before, after, message, waker, before.instances.len());
            assert(before.instances[i].waker == Some(waker));
            lemma_times_contains(wakers, waker);
        }
        assert(after.instances[i].waker is None) by {
            assert(after == before.delivered(message, chosen));
        }
    }
    match was.filter {
        Filter::Everything => {
            everything_is_delivered(before, message, after, wakers, i);
        },
        Filter::Reply(id) => {
            reply_reaches_its_request(before, message, after, wakers, i, id);
        },
        Filter::Notifications => {
            notifications_have_no_id(before, message, after, wakers, i);
        },
        Filter::Matching(f) => {
            filtered_notifications_have_no_id(before, message, after, wakers, i, f);
        },
        Filter::Leftovers => {
            leftovers_are_what_is_left(before, message, after, wakers, i);
            assert forall|j: int|
                0 <= j < before.instances.len() && !((
                #[trigger] before.instances[j]).filter is Leftovers) && got(
                    before,
                    after,
                    message,
                    i,
                ) implies !got(before, after, message, j) by {}
        },
    }
}

proof fn lemma_broadcast<W, F: Fn(&RawResponse<'_>) -> bool>(
    message: ResponseStreamItem,
    before: InnerView<W, F>,
    after: InnerView<W, F>,
    wakers: Seq<W>,
)
    requires
        before.wf(),
        before.may_broadcast(message, after, wakers),
    ensures
        has_been_broadcast(message, before, after, wakers),
{
    assert forall|i: int| 0 <= i < before.instances.len() implies #[trigger] has_been_offered(
        message,
        before,
        after,
        wakers,
        i,
    ) by {
        lemma_offered(message, before, after, wakers, i);
    }
    assert forall|waker: W| #[trigger] wakers.contains(waker) implies exists|i: int|
        0 <= i < before.instances.len() && (#[trigger] before.instances[i]).waker == Some(waker)
            && got(before, after, message, i) by {
        lemma_times_contains(wakers, waker);
        wakers_are_woken_once_per_receiver(before, message, after, wakers, waker);
        lemma_some_receiver(before, after, message, waker, before.instances.len());
    }
}

/// Whether everything has ended between two states, and these have been woken for it. Every stream
/// is as it was, but that those that waited have been woken and wait no more.
pub open spec fn has_ended<W, F>(
    before: InnerView<W, F>,
    after: InnerView<W, F>,
    wakers: Seq<W>,
) -> bool {
    &&& after.hub == before.hub
    &&& after.done
    &&& after.next_id == before.next_id
    &&& after.instances.len() == before.instances.len()
    &&& forall|i: int|
        #![trigger after.instances[i]]
        #![trigger before.instances[i]]
        0 <= i < before.instances.len() ==> {
            &&& after.instances[i].id == before.instances[i].id
            &&& after.instances[i].queue == before.instances[i].queue
            &&& after.instances[i].filter == before.instances[i].filter
            &&& after.instances[i].waker is None
            &&& before.instances[i].waker matches Some(waker) ==> wakers.contains(waker)
        }
    &&& forall|waker: W| #[trigger]
        wakers.contains(waker) ==> exists|i: int|
            0 <= i < before.instances.len() && (#[trigger] before.instances[i]).waker == Some(waker)
}

proof fn lemma_ended<W, F>(before: InnerView<W, F>)
    ensures
        has_ended(before, before.finished(), before.all_parked()),
{
    let wakers = before.all_parked();
    assert forall|waker: W|
        wakers.contains(waker) <==> (exists|i: int|
            0 <= i < before.instances.len() && (#[trigger] before.instances[i]).waker == Some(
                waker,
            )) by {
        lemma_times_contains(wakers, waker);
        ending_wakes_once_per_waiter(before, waker);
        lemma_some_waiter(before, waker, before.instances.len());
    }
}

/// Whether polling the stream at `i` comes to this: it emits the first message of its own queue,
/// or else of those that have come for it, all of which it then takes over. Where there is none it
/// ends if no more will come, and else its waker is kept. No other stream notices.
pub open spec fn has_been_polled<W, F>(
    stream: StreamView,
    stream_after: StreamView,
    before: InnerView<W, F>,
    after: InnerView<W, F>,
    waker: W,
    emitted: Poll<Option<ResponseStreamItem>>,
    i: int,
) -> bool {
    let was = before.instances[i];
    let is = after.instances[i];
    &&& stream_after.id == stream.id
    &&& after.hub == before.hub
    &&& after.done == before.done
    &&& after.next_id == before.next_id
    &&& after.instances.len() == before.instances.len()
    &&& forall|j: int|
        0 <= j < before.instances.len() && j != i ==> #[trigger] after.instances[j]
            == before.instances[j]
    &&& is.id == was.id
    &&& is.filter == was.filter
    &&& if stream.queue.len() > 0 {
        &&& emitted == Poll::Ready(Some(stream.queue[0]))
        &&& stream_after.queue == stream.queue.drop_first()
        &&& is == was
    } else if was.queue.len() > 0 {
        &&& emitted == Poll::Ready(Some(was.queue[0]))
        &&& stream_after.queue == was.queue.drop_first()
        &&& is.queue.len() == 0
        &&& is.waker == was.waker
    } else {
        &&& stream_after.queue.len() == 0
        &&& is.queue.len() == 0
        &&& if before.done {
            emitted == Poll::Ready(None::<ResponseStreamItem>) && is == was
        } else {
            emitted is Pending && is.waker == Some(waker)
        }
    }
}

proof fn lemma_polled<W, F: Fn(&RawResponse<'_>) -> bool>(
    stream: StreamView,
    before: InnerView<W, F>,
    waker: W,
    i: int,
)
    requires
        before.wf(),
        0 <= i < before.instances.len(),
        before.instances[i].id == stream.id,
    ensures
        ({
            let (emitted, stream_after, after) = poll_step(stream, before, waker);
            has_been_polled(stream, stream_after, before, after, waker, emitted, i)
        }),
{
    lemma_place(before, i);
}

/// A filter takes what it is made for: everything, nothing by itself where it is for leftovers, the
/// responses with its ID, the messages without an ID, or those of them that its function accepts.
pub proof fn filters_take_what_they_are_made_for<F: Fn(&RawResponse<'_>) -> bool>(
    filter: &Filter<F>,
    message: &RawResponse<'static>,
    chosen: bool,
)
    requires
        call_ensures(Filter::<F>::asks, (filter, message), chosen),
    ensures
        filter is Everything ==> chosen,
        filter is Leftovers ==> !chosen,
        *filter matches Filter::Reply(id) ==> chosen == (stated_id(message@) == Some(id@)),
        filter is Notifications ==> chosen == (stated_id(message@) is None),
        filter is Matching && stated_id(message@) is Some ==> !chosen,
        *filter matches Filter::Matching(f) ==> stated_id(message@) is None ==> call_ensures(
            *f,
            (message,),
            chosen,
        ),
{
}

/// A message that is broadcast reaches every stream whose filter takes it, and no other.
pub proof fn broadcasts_reach_who_takes_them<W, F: Fn(&RawResponse<'_>) -> bool>(
    inner: &mut ResponseStreamInner<W, F>,
    message: ResponseStreamItem,
    wakers: Vec<W>,
)
    requires
        old(inner)@.wf(),
        call_ensures(ResponseStreamInner::<W, F>::broadcast, (inner, message), wakers),
    ensures
        has_been_broadcast(message, old(inner)@, final(inner)@, wakers@),
{
    lemma_broadcast(message, old(inner)@, final(inner)@, wakers@);
}

/// A message that is delivered reaches just those that are chosen for it, and those that take
/// leftovers where nobody is and it has no ID.
pub proof fn deliveries_reach_who_is_chosen<W, F: Fn(&RawResponse<'_>) -> bool>(
    inner: &mut ResponseStreamInner<W, F>,
    message: ResponseStreamItem,
    chosen: &Vec<bool>,
    wakers: Vec<W>,
    i: int,
)
    requires
        call_ensures(ResponseStreamInner::<W, F>::deliver, (inner, message, chosen), wakers),
        0 <= i < old(inner)@.instances.len() == chosen@.len(),
    ensures
        final(inner)@.instances.len() == old(inner)@.instances.len(),
        final(inner)@.done == old(inner)@.done,
        final(inner)@.next_id == old(inner)@.next_id,
        ({
            let was = old(inner)@.instances[i];
            let is = final(inner)@.instances[i];
            let leftover = was.filter is Leftovers && stated_id(message@) is None && (forall|j: int|
                0 <= j < chosen@.len() ==> !#[trigger] chosen@[j]);
            if chosen@[i] || leftover {
                &&& is.id == was.id
                &&& is.filter == was.filter
                &&& is.queue == was.queue.push(message)
                &&& is.waker is None
            } else {
                is == was
            }
        }),
{
    if chosen@.contains(true) {
        let j = choose|j: int| 0 <= j < chosen@.len() && chosen@[j] == true;
        assert(chosen@[j]);
    } else {
        assert forall|j: int| 0 <= j < chosen@.len() implies !#[trigger] chosen@[j] by {
            if chosen@[j] {
                assert(chosen@.contains(true));
            }
        }
    }
}

/// When everything ends, what the streams have stays theirs, and who waits is woken.
pub proof fn ending_keeps_what_streams_have<W, F: Fn(&RawResponse<'_>) -> bool>(
    inner: &mut ResponseStreamInner<W, F>,
    wakers: Vec<W>,
)
    requires
        call_ensures(ResponseStreamInner::<W, F>::finish, (inner,), wakers),
    ensures
        has_ended(old(inner)@, final(inner)@, wakers@),
{
    lemma_ended(old(inner)@);
}

/// Polling a stream emits the first message that it has.
pub proof fn polls_emit_the_first<W, F: Fn(&RawResponse<'_>) -> bool>(
    stream: &mut ResponseStream,
    inner: &mut ResponseStreamInner<W, F>,
    waker: W,
    polled: Poll<Option<ResponseStreamItem>>,
    i: int,
)
    requires
        call_ensures(ResponseStream::poll_next::<W, F>, (stream, inner, waker), polled),
        old(inner)@.wf(),
        0 <= i < old(inner)@.instances.len(),
        old(inner)@.instances[i].id == old(stream)@.id,
    ensures
        has_been_polled(
            old(stream)@,
            final(stream)@,
            old(inner)@,
            final(inner)@,
            waker,
            polled,
            i,
        ),
{
    lemma_polled(old(stream)@, old(inner)@, waker, i);
}

/// Polling a stream of notifications emits the first message that it has, as it came.
pub proof fn notifications_are_emitted_as_they_came<W, F: Fn(&RawResponse<'_>) -> bool>(
    stream: &mut ServerNotificationStream,
    inner: &mut ResponseStreamInner<W, F>,
    waker: W,
    polled: Poll<Option<Response>>,
    i: int,
)
    requires
        call_ensures(ServerNotificationStream::poll_next::<W, F>, (stream, inner, waker), polled),
        old(inner)@.wf(),
        0 <= i < old(inner)@.instances.len(),
        old(inner)@.instances[i].id == old(stream)@.id,
    ensures
        exists|emitted: Poll<Option<ResponseStreamItem>>|
            {
                &&& #[trigger] has_been_polled(
                    old(stream)@,
                    final(stream)@,
                    old(inner)@,
                    final(inner)@,
                    waker,
                    emitted,
                    i,
                )
                &&& match polled {
                    Poll::Ready(Some(response)) => emitted matches Poll::Ready(Some(item))
                        && item@ == response@,
                    Poll::Ready(None) => emitted matches Poll::Ready(None),
                    Poll::Pending => emitted is Pending,
                }
            },
{
    lemma_polled(old(stream)@, old(inner)@, waker, i);
    let emitted = poll_step(old(stream)@, old(inner)@, waker).0;
    assert(has_been_polled(
        old(stream)@,
        final(stream)@,
        old(inner)@,
        final(inner)@,
        waker,
        emitted,
        i,
    ));
}

/// Polling a request gives the first message that its stream has, as it came; where it has none,
/// that the connection is closed if no more will come, and else nothing yet.
pub proof fn requests_give_what_came<W, E, F: Fn(&RawResponse<'_>) -> bool>(
    pending: &mut PendingRequest,
    inner: &mut ResponseStreamInner<W, F>,
    waker: W,
    polled: Poll<Result<Response, RequestError<E>>>,
    i: int,
)
    requires
        call_ensures(PendingRequest::poll::<W, E, F>, (pending, inner, waker), polled),
        old(inner)@.wf(),
        0 <= i < old(inner)@.instances.len(),
        old(inner)@.instances[i].id == old(pending).stream().id,
    ensures
        final(pending).message() == old(pending).message(),
        exists|emitted: Poll<Option<ResponseStreamItem>>|
            {
                &&& #[trigger] has_been_polled(
                    old(pending).stream(),
                    final(pending).stream(),
                    old(inner)@,
                    final(inner)@,
                    waker,
                    emitted,
                    i,
                )
                &&& match polled {
                    Poll::Ready(Ok(response)) => emitted matches Poll::Ready(Some(item)) && item@
                        == response@,
                    Poll::Ready(Err(error)) => emitted matches Poll::Ready(None)
                        && error is ConnectionClosed,
                    Poll::Pending => emitted is Pending,
                }
            },
{
    lemma_polled(old(pending).stream(), old(inner)@, waker, i);
    let emitted = poll_step(old(pending).stream(), old(inner)@, waker).0;
    assert(has_been_polled(
        old(pending).stream(),
        final(pending).stream(),
        old(inner)@,
        final(inner)@,
        waker,
        emitted,
        i,
    ));
}

/// Whether one more stream has been registered between two states, with these messages and this
/// filter. No other stream notices.
pub open spec fn has_been_registered<W, F>(
    before: InnerView<W, F>,
    after: InnerView<W, F>,
    queue: Seq<ResponseStreamItem>,
    filter: Filter<F>,
) -> bool {
    &&& after.hub == before.hub
    &&& after.done == before.done
    &&& after.next_id == before.next_id + 1
    &&& after.instances.len() == before.instances.len() + 1
    &&& forall|i: int|
        0 <= i < before.instances.len() ==> #[trigger] after.instances[i] == before.instances[i]
    &&& after.instances.last().id == before.next_id
    &&& after.instances.last().queue == queue
    &&& after.instances.last().filter == filter
    &&& after.instances.last().waker is None
}

/// A new stream is registered behind the others, and has nothing yet.
pub proof fn new_streams_are_registered<W, F: Fn(&RawResponse<'_>) -> bool>(
    handle: &ResponseStreamHandle,
    inner: &mut ResponseStreamInner<W, F>,
    filter: Filter<F>,
    stream: ResponseStream,
)
    requires
        old(inner)@.next_id < u64::MAX,
        call_ensures(ResponseStreamHandle::with_filter::<W, F>, (handle, inner, filter), stream),
    ensures
        has_been_registered(old(inner)@, final(inner)@, seq![], filter),
        stream@.id == old(inner)@.next_id,
        stream@.queue.len() == 0,
{
}

/// Streams of everything and of leftovers are registered as such.
pub proof fn streams_are_registered_as_what_they_are<W, F: Fn(&RawResponse<'_>) -> bool>(
    handle: &ResponseStreamHandle,
    inner: &mut ResponseStreamInner<W, F>,
    everything: ResponseStream,
    other: &mut ResponseStreamInner<W, F>,
    leftovers: ResponseStream,
)
    requires
        old(inner)@.next_id < u64::MAX,
        old(other)@.next_id < u64::MAX,
        call_ensures(ResponseStreamHandle::response_stream::<W, F>, (handle, inner), everything),
        call_ensures(ResponseStreamHandle::leftovers::<W, F>, (handle, other), leftovers),
    ensures
        has_been_registered(old(inner)@, final(inner)@, seq![], Filter::Everything),
        everything@.id == old(inner)@.next_id,
        everything@.queue.len() == 0,
        has_been_registered(old(other)@, final(other)@, seq![], Filter::Leftovers),
        leftovers@.id == old(other)@.next_id,
        leftovers@.queue.len() == 0,
{
}

/// Streams of notifications are registered as what they are asked for: all of them, those that a
/// function accepts, or those that nobody else takes.
pub proof fn notification_streams_are_registered_as_what_they_are<
    W,
    F: Fn(&RawResponse<'_>) -> bool,
>(
    notifications: &ServerNotifications,
    inner: &mut ResponseStreamInner<W, F>,
    all: ServerNotificationStream,
    other: &mut ResponseStreamInner<W, F>,
    leftovers: ServerNotificationStream,
    third: &mut ResponseStreamInner<W, F>,
    filter_fn: F,
    matching: ServerNotificationStream,
)
    requires
        old(inner)@.next_id < u64::MAX,
        old(other)@.next_id < u64::MAX,
        old(third)@.next_id < u64::MAX,
        call_ensures(ServerNotifications::all::<W, F>, (notifications, inner), all),
        call_ensures(ServerNotifications::leftovers::<W, F>, (notifications, other), leftovers),
        call_ensures(
            ServerNotifications::with_filter::<W, F>,
            (notifications, third, filter_fn),
            matching,
        ),
    ensures
        has_been_registered(old(inner)@, final(inner)@, seq![], Filter::Notifications),
        all@.id == old(inner)@.next_id,
        all@.queue.len() == 0,
        has_been_registered(old(other)@, final(other)@, seq![], Filter::Leftovers),
        leftovers@.id == old(other)@.next_id,
        leftovers@.queue.len() == 0,
        has_been_registered(
            old(third)@,
            final(third)@,
            seq![],
            Filter::Matching(std::sync::Arc::new(filter_fn)),
        ),
        matching@.id == old(third)@.next_id,
        matching@.queue.len() == 0,
{
}

/// A clone is registered with the filter and the messages of the stream that is cloned.
pub proof fn clones_are_registered_with_the_same<W, F: Fn(&RawResponse<'_>) -> bool>(
    stream: &ResponseStream,
    inner: &mut ResponseStreamInner<W, F>,
    copy: ResponseStream,
    i: int,
)
    requires
        call_ensures(ResponseStream::clone::<W, F>, (stream, inner), copy),
        old(inner)@.wf(),
        old(inner)@.next_id < u64::MAX,
        0 <= i < old(inner)@.instances.len(),
        old(inner)@.instances[i].id == stream@.id,
    ensures
        has_been_registered(
            old(inner)@,
            final(inner)@,
            old(inner)@.instances[i].queue,
            old(inner)@.instances[i].filter,
        ),
        copy@.id == old(inner)@.next_id,
        copy@.queue == stream@.queue,
{
    lemma_place(old(inner)@, i);
}

/// Whether the stream at `i` has gone between two states. No other stream notices.
pub open spec fn has_been_closed<W, F>(
    before: InnerView<W, F>,
    after: InnerView<W, F>,
    i: int,
) -> bool {
    &&& after.hub == before.hub
    &&& after.done == before.done
    &&& after.next_id == before.next_id
    &&& after.instances.len() == before.instances.len() - 1
    &&& forall|j: int| 0 <= j < i ==> #[trigger] after.instances[j] == before.instances[j]
    &&& forall|j: int|
        i <= j < after.instances.len() ==> #[trigger] after.instances[j] == before.instances[j + 1]
}

/// Closing a stream takes it away, and nothing else.
pub proof fn closed_streams_are_gone<W, F: Fn(&RawResponse<'_>) -> bool>(
    stream: ResponseStream,
    inner: &mut ResponseStreamInner<W, F>,
    i: int,
)
    requires
        call_ensures(ResponseStream::close::<W, F>, (stream, inner), ()),
        old(inner)@.wf(),
        0 <= i < old(inner)@.instances.len(),
        old(inner)@.instances[i].id == stream@.id,
    ensures
        has_been_closed(old(inner)@, final(inner)@, i),
{
    lemma_place(old(inner)@, i);
}

/// Closing a stream of notifications takes it away, and nothing else.
pub proof fn closed_notification_streams_are_gone<W, F: Fn(&RawResponse<'_>) -> bool>(
    stream: ServerNotificationStream,
    inner: &mut ResponseStreamInner<W, F>,
    i: int,
)
    requires
        call_ensures(ServerNotificationStream::close::<W, F>, (stream, inner), ()),
        old(inner)@.wf(),
        0 <= i < old(inner)@.instances.len(),
        old(inner)@.instances[i].id == stream@.id,
    ensures
        has_been_closed(old(inner)@, final(inner)@, i),
{
    lemma_place(old(inner)@, i);
}

/// A request that is given up is no longer waited for, and nothing else changes.
pub proof fn requests_that_are_given_up_are_gone<W, F: Fn(&RawResponse<'_>) -> bool>(
    pending: PendingRequest,
    inner: &mut ResponseStreamInner<W, F>,
    i: int,
)
    requires
        call_ensures(PendingRequest::close::<W, F>, (pending, inner), ()),
        old(inner)@.wf(),
        0 <= i < old(inner)@.instances.len(),
        old(inner)@.instances[i].id == pending.stream().id,
    ensures
        has_been_closed(old(inner)@, final(inner)@, i),
{
    lemma_place(old(inner)@, i);
}

/// A request that was sent goes on as it is. One that could not be sent is gone, and the error of
/// the backend is handed back.
pub proof fn requests_go_on_where_they_were_sent<W, E, F: Fn(&RawResponse<'_>) -> bool>(
    pending: PendingRequest,
    inner: &mut ResponseStreamInner<W, F>,
    outcome: Result<(), E>,
    r: Result<PendingRequest, RequestError<E>>,
    i: int,
)
    requires
        call_ensures(PendingRequest::sent::<W, E, F>, (pending, inner, outcome), r),
        old(inner)@.wf(),
        0 <= i < old(inner)@.instances.len(),
        old(inner)@.instances[i].id == pending.stream().id,
    ensures
        outcome is Ok ==> r == Ok::<PendingRequest, RequestError<E>>(pending) && final(inner)@
            == old(inner)@,
        outcome matches Err(error) ==> {
            &&& r matches Err(RequestError::Backend(said)) && said == error
            &&& has_been_closed(old(inner)@, final(inner)@, i)
        },
{
    lemma_place(old(inner)@, i);
}

/// Whether `explain` was asked about these bytes and said this.
pub open spec fn explained<X: FnOnce(&[u8]) -> serde_json::Error>(
    explain: X,
    bytes: Seq<u8>,
    error: serde_json::Error,
) -> bool {
    exists|b: &[u8]| b@ == bytes && #[trigger] call_ensures(explain, (b,), error)
}

/// Whether this is what is wrong with bytes in which there is no response of version 2.0.
pub open spec fn is_wrong_with<E, X: FnOnce(&[u8]) -> serde_json::Error>(
    error: ResponseStreamError<E>,
    bytes: Seq<u8>,
    explain: X,
) -> bool {
    match error {
        ResponseStreamError::BackendError(_) => false,
        ResponseStreamError::Response(ResponseError::Deserialize { error, bytes: copy }) => {
            &&& decoded(bytes) is None
            &&& explained(explain, bytes, error)
            &&& copy@ == bytes
        },
        ResponseStreamError::Response(ResponseError::InvalidVersion { bytes: copy }) => {
            &&& decoded(bytes) is Some
            &&& copy@ == bytes
        },
    }
}

/// What the master makes of what it receives. A response of version 2.0 is handed back, and has
/// been broadcast. Other bytes change nothing, and it is said what is wrong with them. An error of
/// the backend and the end of the connection end everything.
pub proof fn received_messages_are_broadcast<
    R: BackendReceiver,
    W,
    E,
    F: Fn(&RawResponse<'_>) -> bool,
    X: FnOnce(&[u8]) -> serde_json::Error,
>(
    master: &mut ResponseStreamMaster<R>,
    inner: &mut ResponseStreamInner<W, F>,
    res: Option<Result<Vec<u8>, E>>,
    explain: X,
    r: (Option<Result<ResponseStreamItem, ResponseStreamError<E>>>, Vec<W>),
)
    requires
        old(inner)@.wf(),
        call_ensures(
            ResponseStreamMaster::<R>::received::<W, E, F, X>,
            (master, inner, res, explain),
            r,
        ),
    ensures
        match res {
            None => {
                &&& r.0 is None
                &&& final(master).done()
                &&& has_ended(old(inner)@, final(inner)@, r.1@)
            },
            Some(Err(error)) => {
                &&& r.0 matches Some(Err(ResponseStreamError::BackendError(said))) && said == error
                &&& final(master).done()
                &&& has_ended(old(inner)@, final(inner)@, r.1@)
            },
            Some(Ok(bytes)) => {
                &&& final(master).done() == old(master).done()
                &&& match response_in(bytes@) {
                    Some(response) => r.0 matches Some(Ok(item)) && item@ == response
                        && has_been_broadcast(item, old(inner)@, final(inner)@, r.1@),
                    None => {
                        &&& r.0 matches Some(Err(error)) && is_wrong_with(error, bytes@, explain)
                        &&& final(inner)@ == old(inner)@
                        &&& r.1@.len() == 0
                    },
                }
            },
        },
{
    lemma_ended(old(inner)@);
    if let Some(Ok(item)) = r.0 {
        if res matches Some(Ok(_)) {
            lemma_broadcast(item, old(inner)@, final(inner)@, r.1@);
        }
    }
}

/// What the driver makes of what it receives: it says that a message was delivered just where the
/// bytes hold a response of version 2.0, which then has been broadcast. Of other bytes it says what
/// is wrong with them, and they change nothing. An error of the backend and the end of the
/// connection end everything.
pub proof fn drivers_say_what_became_of_a_message<
    R: BackendReceiver,
    W,
    E,
    F: Fn(&RawResponse<'_>) -> bool,
    X: FnOnce(&[u8]) -> serde_json::Error,
>(
    driver: &mut ClientDriver<R>,
    inner: &mut ResponseStreamInner<W, F>,
    res: Option<Result<Vec<u8>, E>>,
    explain: X,
    r: (Option<Result<(), ClientDriverError<E>>>, Vec<W>),
)
    requires
        old(inner)@.wf(),
        call_ensures(ClientDriver::<R>::received::<W, E, F, X>, (driver, inner, res, explain), r),
    ensures
        match res {
            None => {
                &&& r.0 is None
                &&& final(driver).done()
                &&& has_ended(old(inner)@, final(inner)@, r.1@)
            },
            Some(Err(error)) => {
                &&& r.0 matches Some(Err(ResponseStreamError::BackendError(said))) && said == error
                &&& final(driver).done()
                &&& has_ended(old(inner)@, final(inner)@, r.1@)
            },
            Some(Ok(bytes)) => {
                &&& final(driver).done() == old(driver).done()
                &&& match response_in(bytes@) {
                    Some(response) => r.0 matches Some(Ok(_)) && exists|item: ResponseStreamItem|
                        item@ == response && #[trigger] has_been_broadcast(
                            item,
                            old(inner)@,
                            final(inner)@,
                            r.1@,
                        ),
                    None => {
                        &&& r.0 matches Some(Err(error)) && is_wrong_with(error, bytes@, explain)
                        &&& final(inner)@ == old(inner)@
                        &&& r.1@.len() == 0
                    },
                }
            },
        },
{
    lemma_ended(old(inner)@);
    if let Some(Ok(bytes)) = res {
        let outcome = choose|outcome: Option<Result<ResponseStreamItem, ResponseStreamError<E>>>|
            r.0 == #[trigger] driver_outcome(outcome)
                && received_message(
                bytes@,
                explain,
                outcome,
                old(inner)@,
                final(inner)@,
                r.1@,
            );
        if let Some(Ok(item)) = outcome {
            lemma_broadcast(item, old(inner)@, final(inner)@, r.1@);
            assert(has_been_broadcast(item, old(inner)@, final(inner)@, r.1@));
        }
    }
}

/// Polling the driver once it has finished does nothing. Before that it waits for the message that
/// it has asked for, or else for another one; and what it says is that this has not come yet, or
/// what became of it. It has finished just when it has said that it ends or that the backend
/// failed: a message that cannot be decoded does not stop it.
pub proof fn driver_polls_say_what_became_of_a_message<
    R: BackendReceiver,
    W,
    E,
    F: Fn(&RawResponse<'_>) -> bool,
    P: FnOnce(R::Receiving) -> Result<Option<Result<Vec<u8>, E>>, R::Receiving>,
    X: FnOnce(&[u8]) -> serde_json::Error,
>(
    driver: &mut ClientDriver<R>,
    inner: &mut ResponseStreamInner<W, F>,
    poll: P,
    explain: X,
    r: (Poll<Option<Result<(), ClientDriverError<E>>>>, Vec<W>),
)
    requires
        old(inner)@.wf(),
        call_ensures(
            ClientDriver::<R>::poll_next::<W, E, F, P, X>,
            (driver, inner, poll, explain),
            r,
        ),
    ensures
        final(driver).done() <==> (r.0 matches Poll::Ready(None)) || (r.0 matches Poll::Ready(
            Some(Err(ResponseStreamError::BackendError(_))),
        )),
        old(driver).done() ==> (r.0 matches Poll::Ready(None)) && final(inner)@ == old(inner)@
            && r.1@.len() == 0,
        !old(driver).done() ==> exists|
            fut: R::Receiving,
            res: Result<Option<Result<Vec<u8>, E>>, R::Receiving>,
        |
            {
                &&& #[trigger] call_ensures(poll, (fut,), res)
                &&& match old(driver).receiving() {
                    Some(asked) => fut == asked,
                    None => call_ensures(R::receive, (&old(driver).receiver(),), fut),
                }
                &&& has_come_to(
                    res,
                    explain,
                    r.0,
                    final(driver).receiving(),
                    old(inner)@,
                    final(inner)@,
                    r.1@,
                )
            },
{
    lemma_ended(old(inner)@);
    if !old(driver).done() {
        let (fut, res, polled) = choose|
            fut: R::Receiving,
            res: Result<Option<Result<Vec<u8>, E>>, R::Receiving>,
            polled: Poll<Option<Result<ResponseStreamItem, ResponseStreamError<E>>>>,
        |
            #[trigger] call_ensures(poll, (fut,), res) && old(driver).waits_for(fut) && r.0
                == #[trigger] driver_polled(polled)
                && polled_message(
                res,
                explain,
                polled,
                final(driver).receiving(),
                old(inner)@,
                final(inner)@,
                r.1@,
            );
        assert(call_ensures(poll, (fut,), res));
        if let Poll::Ready(Some(Ok(item))) = polled {
            lemma_broadcast(item, old(inner)@, final(inner)@, r.1@);
            assert(has_been_broadcast(item, old(inner)@, final(inner)@, r.1@));
        }
    }
}

/// What a poll comes to, given what came of waiting for a message.
pub open spec fn has_come_to<
    Receiving,
    T,
    W,
    E,
    F: Fn(&RawResponse<'_>) -> bool,
    X: FnOnce(&[u8]) -> serde_json::Error,
>(
    res: Result<Option<Result<Vec<u8>, E>>, Receiving>,
    explain: X,
    said: Poll<Option<Result<T, ResponseStreamError<E>>>>,
    receiving: Option<Receiving>,
    before: InnerView<W, F>,
    after: InnerView<W, F>,
    wakers: Seq<W>,
) -> bool {
    match res {
        Err(waiting) => {
            &&& said is Pending
            &&& receiving == Some(waiting)
            &&& after == before
            &&& wakers.len() == 0
        },
        Ok(None) => {
            &&& said matches Poll::Ready(None)
            &&& receiving is None
            &&& has_ended(before, after, wakers)
        },
        Ok(Some(Err(error))) => {
            &&& said matches Poll::Ready(Some(Err(ResponseStreamError::BackendError(e)))) && e
                == error
            &&& receiving is None
            &&& has_ended(before, after, wakers)
        },
        Ok(Some(Ok(bytes))) => {
            &&& receiving is None
            &&& match response_in(bytes@) {
                Some(response) => (said matches Poll::Ready(Some(Ok(_)))) && exists|
                    item: ResponseStreamItem,
                |
                    item@ == response && #[trigger] has_been_broadcast(item, before, after, wakers),
                None => {
                    &&& said matches Poll::Ready(Some(Err(error))) && is_wrong_with(
                        error,
                        bytes@,
                        explain,
                    )
                    &&& after == before
                    &&& wakers.len() == 0
                },
            }
        },
    }
}

/// Polling the master comes to what polling the driver comes to, and where a message was
/// delivered it is handed back.
pub proof fn master_polls_hand_back_messages<
    R: BackendReceiver,
    W,
    E,
    F: Fn(&RawResponse<'_>) -> bool,
    P: FnOnce(R::Receiving) -> Result<Option<Result<Vec<u8>, E>>, R::Receiving>,
    X: FnOnce(&[u8]) -> serde_json::Error,
>(
    master: &mut ResponseStreamMaster<R>,
    inner: &mut ResponseStreamInner<W, F>,
    poll: P,
    explain: X,
    r: (Poll<Option<Result<ResponseStreamItem, ResponseStreamError<E>>>>, Vec<W>),
)
    requires
        old(inner)@.wf(),
        call_ensures(
            ResponseStreamMaster::<R>::poll_next::<W, E, F, P, X>,
            (master, inner, poll, explain),
            r,
        ),
    ensures
        final(master).done() <==> (r.0 matches Poll::Ready(None)) || (r.0 matches Poll::Ready(
            Some(Err(ResponseStreamError::BackendError(_))),
        )),
        old(master).done() ==> (r.0 matches Poll::Ready(None)) && final(inner)@ == old(inner)@
            && r.1@.len() == 0,
        r.0 matches Poll::Ready(Some(Ok(item))) ==> has_been_broadcast(
            item,
            old(inner)@,
            final(inner)@,
            r.1@,
        ),
        !old(master).done() ==> exists|
            fut: R::Receiving,
            res: Result<Option<Result<Vec<u8>, E>>, R::Receiving>,
        |
            {
                &&& #[trigger] call_ensures(poll, (fut,), res)
                &&& match old(master).receiving() {
                    Some(asked) => fut == asked,
                    None => call_ensures(R::receive, (&old(master).receiver(),), fut),
                }
                &&& has_come_to(
                    res,
                    explain,
                    r.0,
                    final(master).receiving(),
                    old(inner)@,
                    final(inner)@,
                    r.1@,
                )
                &&& r.0 matches Poll::Ready(Some(Ok(item))) ==> (res matches Ok(Some(Ok(bytes)))
                    && response_in(bytes@) == Some(item@))
            },
{
    lemma_ended(old(inner)@);
    if let Poll::Ready(Some(Ok(item))) = r.0 {
        lemma_broadcast(item, old(inner)@, final(inner)@, r.1@);
        assert(has_been_broadcast(item, old(inner)@, final(inner)@, r.1@));
    }
    if !old(master).done() {
        let (fut, res) = choose|
            fut: R::Receiving,
            res: Result<Option<Result<Vec<u8>, E>>, R::Receiving>,
        |
            #[trigger] call_ensures(poll, (fut,), res) && old(master).waits_for(fut)
                && polled_message(
                res,
                explain,
                r.0,
                final(master).receiving(),
                old(inner)@,
                final(inner)@,
                r.1@,
            );
        assert(call_ensures(poll, (fut,), res));
    }
}

/// The message that has been asked for and has not come is the next one to be waited for; only
/// where there is none is another one asked for. Nothing is asked for once this has finished.
pub proof fn messages_are_waited_for_until_they_come<R: BackendReceiver>(
    driver: &mut ClientDriver<R>,
    next: NextMessage<R::Receiving>,
)
    requires
        call_ensures(ClientDriver::<R>::next_message, (driver,), next),
    ensures
        old(driver).done() <==> next is Finished,
        final(driver).done() == old(driver).done(),
        next matches NextMessage::Message(fut) ==> match old(driver).receiving() {
            Some(asked) => fut == asked,
            None => call_ensures(R::receive, (&old(driver).receiver(),), fut),
        },
{
}

/// The same holds of the master.
pub proof fn masters_wait_for_messages_until_they_come<R: BackendReceiver>(
    master: &mut ResponseStreamMaster<R>,
    next: NextMessage<R::Receiving>,
    later: &mut ResponseStreamMaster<R>,
    fut: R::Receiving,
)
    requires
        call_ensures(ResponseStreamMaster::<R>::next_message, (master,), next),
        call_ensures(ResponseStreamMaster::<R>::not_ready, (later, fut), ()),
    ensures
        old(master).done() <==> next is Finished,
        final(master).done() == old(master).done(),
        next matches NextMessage::Message(fut) ==> match old(master).receiving() {
            Some(asked) => fut == asked,
            None => call_ensures(R::receive, (&old(master).receiver(),), fut),
        },
        final(later).receiving() == Some(fut),
        final(later).done() == old(later).done(),
{
}

/// When the master goes, what the streams have stays theirs, and who waits is woken.
pub proof fn dropping_the_master_ends_everything<
    R: BackendReceiver,
    W,
    F: Fn(&RawResponse<'_>) -> bool,
>(master: ResponseStreamMaster<R>, inner: &mut ResponseStreamInner<W, F>, wakers: Vec<W>)
    requires
        call_ensures(ResponseStreamMaster::<R>::close::<W, F>, (master, inner), wakers),
    ensures
        has_ended(old(inner)@, final(inner)@, wakers@),
{
    lemma_ended(old(inner)@);
}

/// Only errors of the backend are fatal.
pub proof fn only_backend_errors_are_fatal<E>(error: &ResponseStreamError<E>, fatal: bool)
    requires
        call_ensures(ResponseStreamError::<E>::is_fatal, (error,), fatal),
    ensures
        error is BackendError ==> fatal,
        error is Response ==> !fatal,
{
}

/// When the driver goes, what the streams have stays theirs, and who waits is woken.
pub proof fn dropping_the_driver_ends_everything<
    R: BackendReceiver,
    W,
    F: Fn(&RawResponse<'_>) -> bool,
>(driver: ClientDriver<R>, inner: &mut ResponseStreamInner<W, F>, wakers: Vec<W>)
    requires
        call_ensures(ClientDriver::<R>::close::<W, F>, (driver, inner), wakers),
    ensures
        has_ended(old(inner)@, final(inner)@, wakers@),
{
    lemma_ended(old(inner)@);
}

/// The answer to a request is what the request gives. When the driver is handed bytes that hold a
/// response of version 2.0 with the ID for which the stream of a request waits, it says that the
/// message was delivered, wakes the request if it waits, and polling the request then gives that
/// response, whatever it holds.
pub proof fn answers_are_what_requests_give<
    R: BackendReceiver,
    W,
    E,
    F: Fn(&RawResponse<'_>) -> bool,
    X: FnOnce(&[u8]) -> serde_json::Error,
>(
    driver: &mut ClientDriver<R>,
    inner: &mut ResponseStreamInner<W, F>,
    bytes: Vec<u8>,
    explain: X,
    r: (Option<Result<(), ClientDriverError<E>>>, Vec<W>),
    answer: ResponseView,
    pending: &mut PendingRequest,
    later: &mut ResponseStreamInner<W, F>,
    waker: W,
    polled: Poll<Result<Response, RequestError<E>>>,
    i: int,
)
    requires
        old(inner)@.wf(),
        response_in(bytes@) == Some(answer),
        call_ensures(
            ClientDriver::<R>::received::<W, E, F, X>,
            (driver, inner, Some(Ok(bytes)), explain),
            r,
        ),
        0 <= i < old(inner)@.instances.len(),
        old(inner)@.instances[i].id == old(pending).stream().id,
        old(inner)@.instances[i].filter matches Filter::Reply(id) && stated_id(answer) == Some(id@),
        old(inner)@.instances[i].queue.len() == 0,
        old(pending).stream().queue.len() == 0,
        old(later)@ == final(inner)@,
        call_ensures(PendingRequest::poll::<W, E, F>, (pending, later, waker), polled),
    ensures
        r.0 matches Some(Ok(_)),
        old(inner)@.instances[i].waker matches Some(w) ==> r.1@.contains(w),
        polled matches Poll::Ready(Ok(response)) && response@ == answer,
{
    drivers_say_what_became_of_a_message(driver, inner, Some(Ok(bytes)), explain, r);
    let item = choose|item: ResponseStreamItem|
        item@ == answer && #[trigger] has_been_broadcast(item, old(inner)@, final(inner)@, r.1@);
    assert(has_been_offered(item, old(inner)@, final(inner)@, r.1@, i)) by {
        assert(old(inner)@.instances[i] == old(inner)@.instances[i]);
    }
    assert(old(later)@.wf()) by {
        assert(final(inner)@.wf());
    }
    requests_give_what_came(pending, later, waker, polled, i);
}

} // verus!
