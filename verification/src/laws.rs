//! What holds of the client as a whole: how messages reach streams, and how streams emit them.
use crate::client::waits_for_reply;
use crate::raw_response::RawResponse;
use crate::response_stream::{
    lemma_place, poll_step, Filter, InnerView, Poll, ResponseStreamItem, StreamView,
};
use crate::text::{decimal, decimal_is_injective};
use vstd::prelude::*;

verus! {

/// Whether the stream at `i` got a message between two states.
pub open spec fn got<W, F>(
    before: InnerView<W, F>,
    after: InnerView<W, F>,
    message: ResponseStreamItem,
    i: int,
) -> bool {
    after.instances[i].queue == before.instances[i].queue.push(message)
}

/// Whether the stream at `i` did not notice anything between two states.
pub open spec fn untouched<W, F>(before: InnerView<W, F>, after: InnerView<W, F>, i: int) -> bool {
    after.instances[i] == before.instances[i]
}

/// A broadcast leaves every stream registered in its place, with its number and its filter. A
/// stream either gets the message, once and behind all that came before, or notices nothing.
pub proof fn broadcast_delivers_once<W, F: Fn(&RawResponse<'_>) -> bool>(
    before: InnerView<W, F>,
    message: ResponseStreamItem,
    after: InnerView<W, F>,
    wakers: Seq<W>,
    i: int,
)
    requires
        before.wf(),
        before.may_broadcast(message, after, wakers),
        0 <= i < before.instances.len(),
    ensures
        after.wf(),
        after.hub == before.hub,
        after.done == before.done,
        after.next_id == before.next_id,
        after.instances.len() == before.instances.len(),
        after.instances[i].id == before.instances[i].id,
        after.instances[i].filter == before.instances[i].filter,
        got(before, after, message, i) != untouched(before, after, i),
{
    let chosen = choose|chosen: Seq<bool>| #[trigger]
        before.may_answer(*message, chosen) && after == before.delivered(message, chosen) && wakers
            == before.woken(message, chosen, before.instances.len());
    assert(before.instances[i].queue.push(message).len() != before.instances[i].queue.len());
}

/// A stream that waits for the responses with an ID gets a message just when that is its ID.
pub proof fn reply_reaches_its_request<W, F: Fn(&RawResponse<'_>) -> bool>(
    before: InnerView<W, F>,
    message: ResponseStreamItem,
    after: InnerView<W, F>,
    wakers: Seq<W>,
    i: int,
    id: String,
)
    requires
        before.wf(),
        before.may_broadcast(message, after, wakers),
        0 <= i < before.instances.len(),
        before.instances[i].filter == Filter::<F>::Reply(id),
    ensures
        got(before, after, message, i) <==> message@.id() == Some(id@),
{
    broadcast_delivers_once(before, message, after, wakers, i);
}

/// Of the streams of two requests that were made with different numbers, only one gets a
/// response.
pub proof fn reply_reaches_one_request<W, F: Fn(&RawResponse<'_>) -> bool>(
    before: InnerView<W, F>,
    message: ResponseStreamItem,
    after: InnerView<W, F>,
    wakers: Seq<W>,
    i: int,
    j: int,
    first: (nat, String),
    second: (nat, String),
)
    requires
        before.wf(),
        before.may_broadcast(message, after, wakers),
        0 <= i < before.instances.len(),
        0 <= j < before.instances.len(),
        first.0 != second.0,
        first.1@ == decimal(first.0),
        second.1@ == decimal(second.0),
        before.instances[i].filter == Filter::<F>::Reply(first.1),
        before.instances[j].filter == Filter::<F>::Reply(second.1),
    ensures
        !(got(before, after, message, i) && got(before, after, message, j)),
{
    reply_reaches_its_request(before, message, after, wakers, i, first.1);
    reply_reaches_its_request(before, message, after, wakers, j, second.1);
    decimal_is_injective(first.0, second.0);
}

/// A stream of all notifications gets the messages without an ID, and no others.
pub proof fn notifications_have_no_id<W, F: Fn(&RawResponse<'_>) -> bool>(
    before: InnerView<W, F>,
    message: ResponseStreamItem,
    after: InnerView<W, F>,
    wakers: Seq<W>,
    i: int,
)
    requires
        before.wf(),
        before.may_broadcast(message, after, wakers),
        0 <= i < before.instances.len(),
        before.instances[i].filter is Notifications,
    ensures
        got(before, after, message, i) <==> message@.id() is None,
{
    broadcast_delivers_once(before, message, after, wakers, i);
}

/// A stream with a filter of the user never gets a response to a request, and gets another
/// message only where the filter may accept it.
pub proof fn filtered_notifications_have_no_id<W, F: Fn(&RawResponse<'_>) -> bool>(
    before: InnerView<W, F>,
    message: ResponseStreamItem,
    after: InnerView<W, F>,
    wakers: Seq<W>,
    i: int,
    f: std::sync::Arc<F>,
)
    requires
        before.wf(),
        before.may_broadcast(message, after, wakers),
        0 <= i < before.instances.len(),
        before.instances[i].filter == Filter::Matching(f),
    ensures
        message@.id() is Some ==> untouched(before, after, i),
        message@.id() is None ==> call_ensures(*f, (&*message,), got(before, after, message, i)),
{
    broadcast_delivers_once(before, message, after, wakers, i);
}

/// A stream of everything gets every message.
pub proof fn everything_is_delivered<W, F: Fn(&RawResponse<'_>) -> bool>(
    before: InnerView<W, F>,
    message: ResponseStreamItem,
    after: InnerView<W, F>,
    wakers: Seq<W>,
    i: int,
)
    requires
        before.wf(),
        before.may_broadcast(message, after, wakers),
        0 <= i < before.instances.len(),
        before.instances[i].filter is Everything,
    ensures
        got(before, after, message, i),
{
}

/// A stream of leftovers gets a message just when the message has no ID and no stream of another
/// kind gets it.
pub proof fn leftovers_are_what_is_left<W, F: Fn(&RawResponse<'_>) -> bool>(
    before: InnerView<W, F>,
    message: ResponseStreamItem,
    after: InnerView<W, F>,
    wakers: Seq<W>,
    i: int,
)
    requires
        before.wf(),
        before.may_broadcast(message, after, wakers),
        0 <= i < before.instances.len(),
        before.instances[i].filter is Leftovers,
    ensures
        got(before, after, message, i) <==> message@.id() is None && (forall|j: int|
            0 <= j < before.instances.len() && !(before.instances[j].filter is Leftovers)
                ==> !#[trigger] got(before, after, message, j)),
{
    let chosen = choose|chosen: Seq<bool>| #[trigger]
        before.may_answer(*message, chosen) && after == before.delivered(message, chosen) && wakers
            == before.woken(message, chosen, before.instances.len());
    broadcast_delivers_once(before, message, after, wakers, i);
    if chosen.contains(true) {
        let j = choose|j: int| 0 <= j < chosen.len() && chosen[j] == true;
        assert(before.instances[j].filter.may_answer(*message, chosen[j]));
        assert(got(before, after, message, j));
    } else {
        assert forall|j: int|
            0 <= j < before.instances.len() && !(before.instances[j].filter is Leftovers) implies !(
        #[trigger] got(before, after, message, j)) by {
            assert(!chosen[j]);
            broadcast_delivers_once(before, message, after, wakers, j);
        }
    }
}

/// How often a waker is handed back.
pub open spec fn times<W>(wakers: Seq<W>, waker: W) -> nat
    decreases wakers.len(),
{
    if wakers.len() == 0 {
        0
    } else {
        times(wakers.drop_last(), waker) + (if wakers.last() == waker {
            1nat
        } else {
            0nat
        })
    }
}

/// Whether the stream at `i` alone waits with this waker.
pub open spec fn waits_alone<W, F>(inner: InnerView<W, F>, i: int, waker: W) -> bool {
    &&& 0 <= i < inner.instances.len()
    &&& inner.instances[i].waker == Some(waker)
    &&& forall|j: int|
        0 <= j < inner.instances.len() && j != i ==> (#[trigger] inner.instances[j]).waker != Some(
            waker,
        )
}

/// Whether no stream waits with this waker.
pub open spec fn nobody_waits<W, F>(inner: InnerView<W, F>, waker: W) -> bool {
    forall|j: int|
        0 <= j < inner.instances.len() ==> (#[trigger] inner.instances[j]).waker != Some(waker)
}

proof fn lemma_times_push<W>(wakers: Seq<W>, last: W, waker: W)
    ensures
        times(wakers.push(last), waker) == times(wakers, waker) + (if last == waker {
            1nat
        } else {
            0nat
        }),
{
    assert(wakers.push(last).drop_last() =~= wakers);
}

/// How often a waker is among those of the first `n` streams that get a message: once for the one
/// stream that waits with it, if it is among them and gets the message.
proof fn lemma_woken_times<W, F: Fn(&RawResponse<'_>) -> bool>(
    inner: InnerView<W, F>,
    message: ResponseStreamItem,
    chosen: Seq<bool>,
    n: nat,
    i: int,
    waker: W,
)
    requires
        n <= inner.instances.len(),
        nobody_waits(inner, waker) || waits_alone(inner, i, waker),
    ensures
        times(inner.woken(message, chosen, n), waker) == (if waits_alone(inner, i, waker) && i < n
            && inner.gets(message, chosen, i) {
            1nat
        } else {
            0nat
        }),
    decreases n,
{
    if n > 0 {
        lemma_woken_times(inner, message, chosen, (n - 1) as nat, i, waker);
        let before = inner.woken(message, chosen, (n - 1) as nat);
        let last = inner.instances[n - 1];
        if let Some(w) = last.waker {
            lemma_times_push(before, w, waker);
        }
    }
}

/// How often a waker is among those of the first `n` streams.
proof fn lemma_parked_times<W, F: Fn(&RawResponse<'_>) -> bool>(
    inner: InnerView<W, F>,
    n: nat,
    i: int,
    waker: W,
)
    requires
        n <= inner.instances.len(),
        waits_alone(inner, i, waker),
    ensures
        times(inner.parked(n), waker) == (if i < n {
            1nat
        } else {
            0nat
        }),
    decreases n,
{
    if n > 0 {
        lemma_parked_times(inner, (n - 1) as nat, i, waker);
        let before = inner.parked((n - 1) as nat);
        let last = inner.instances[n - 1];
        if let Some(w) = last.waker {
            lemma_times_push(before, w, waker);
        }
    }
}

/// A stream that waits is woken exactly once when it gets a message, and then no longer waits. It
/// keeps its waker, and is not woken, when it does not get the message.
pub proof fn receivers_are_woken_once<W, F: Fn(&RawResponse<'_>) -> bool>(
    before: InnerView<W, F>,
    message: ResponseStreamItem,
    after: InnerView<W, F>,
    wakers: Seq<W>,
    i: int,
    waker: W,
)
    requires
        before.wf(),
        before.may_broadcast(message, after, wakers),
        waits_alone(before, i, waker),
    ensures
        got(before, after, message, i) ==> times(wakers, waker) == 1 && nobody_waits(after, waker),
        !got(before, after, message, i) ==> times(wakers, waker) == 0 && waits_alone(
            after,
            i,
            waker,
        ),
{
    let chosen = choose|chosen: Seq<bool>| #[trigger]
        before.may_answer(*message, chosen) && after == before.delivered(message, chosen) && wakers
            == before.woken(message, chosen, before.instances.len());
    broadcast_delivers_once(before, message, after, wakers, i);
    lemma_woken_times(before, message, chosen, before.instances.len(), i, waker);
}

/// How many of the first `n` streams wait with this waker and get a message between two states.
pub open spec fn receivers_with<W, F>(
    before: InnerView<W, F>,
    after: InnerView<W, F>,
    message: ResponseStreamItem,
    waker: W,
    n: nat,
) -> nat
    decreases n,
{
    if n == 0 {
        0
    } else {
        receivers_with(before, after, message, waker, (n - 1) as nat) + (if before.instances[n
            - 1].waker == Some(waker) && got(before, after, message, n - 1) {
            1nat
        } else {
            0nat
        })
    }
}

/// How many of the first `n` streams wait with this waker.
pub open spec fn waiters_with<W, F>(inner: InnerView<W, F>, waker: W, n: nat) -> nat
    decreases n,
{
    if n == 0 {
        0
    } else {
        waiters_with(inner, waker, (n - 1) as nat) + (if inner.instances[n - 1].waker == Some(
            waker,
        ) {
            1nat
        } else {
            0nat
        })
    }
}

proof fn lemma_receivers_with<W, F: Fn(&RawResponse<'_>) -> bool>(
    before: InnerView<W, F>,
    message: ResponseStreamItem,
    chosen: Seq<bool>,
    waker: W,
    n: nat,
)
    requires
        before.wf(),
        before.may_answer(*message, chosen),
        n <= before.instances.len(),
    ensures
        times(before.woken(message, chosen, n), waker) == receivers_with(
            before,
            before.delivered(message, chosen),
            message,
            waker,
            n,
        ),
    decreases n,
{
    if n > 0 {
        let after = before.delivered(message, chosen);
        let wakers = before.woken(message, chosen, before.instances.len());
        assert(before.may_broadcast(message, after, wakers));
        broadcast_delivers_once(before, message, after, wakers, n - 1);
        lemma_receivers_with(before, message, chosen, waker, (n - 1) as nat);
        if let Some(w) = before.instances[n - 1].waker {
            lemma_times_push(before.woken(message, chosen, (n - 1) as nat), w, waker);
        }
    }
}

/// A waker is woken by a broadcast exactly once for each stream that waits with it and gets the
/// message, so twice where two such streams wait with one waker.
pub proof fn wakers_are_woken_once_per_receiver<W, F: Fn(&RawResponse<'_>) -> bool>(
    before: InnerView<W, F>,
    message: ResponseStreamItem,
    after: InnerView<W, F>,
    wakers: Seq<W>,
    waker: W,
)
    requires
        before.wf(),
        before.may_broadcast(message, after, wakers),
    ensures
        times(wakers, waker) == receivers_with(
            before,
            after,
            message,
            waker,
            before.instances.len(),
        ),
{
    let chosen = choose|chosen: Seq<bool>| #[trigger]
        before.may_answer(*message, chosen) && after == before.delivered(message, chosen) && wakers
            == before.woken(message, chosen, before.instances.len());
    lemma_receivers_with(before, message, chosen, waker, before.instances.len());
}

/// When the connection ends a waker is woken exactly once for each stream that waits with it.
pub proof fn ending_wakes_once_per_waiter<W, F>(inner: InnerView<W, F>, waker: W)
    ensures
        times(inner.all_parked(), waker) == waiters_with(inner, waker, inner.instances.len()),
{
    lemma_waiters_with(inner, waker, inner.instances.len());
}

proof fn lemma_waiters_with<W, F>(inner: InnerView<W, F>, waker: W, n: nat)
    ensures
        times(inner.parked(n), waker) == waiters_with(inner, waker, n),
    decreases n,
{
    if n > 0 {
        lemma_waiters_with(inner, waker, (n - 1) as nat);
        if let Some(w) = inner.instances[n - 1].waker {
            lemma_times_push(inner.parked((n - 1) as nat), w, waker);
        }
    }
}

/// A waker that no stream waits with is not woken: a stream that has been woken is not woken again
/// before it waits again.
pub proof fn nobody_else_is_woken<W, F: Fn(&RawResponse<'_>) -> bool>(
    before: InnerView<W, F>,
    message: ResponseStreamItem,
    after: InnerView<W, F>,
    wakers: Seq<W>,
    waker: W,
)
    requires
        before.may_broadcast(message, after, wakers),
        nobody_waits(before, waker),
    ensures
        times(wakers, waker) == 0,
        nobody_waits(after, waker),
{
    let chosen = choose|chosen: Seq<bool>| #[trigger]
        before.may_answer(*message, chosen) && after == before.delivered(message, chosen) && wakers
            == before.woken(message, chosen, before.instances.len());
    lemma_woken_times(before, message, chosen, before.instances.len(), 0, waker);
}

/// A stream that waits when the connection ends is woken exactly once. When it is then polled it
/// emits what is left, and else ends.
pub proof fn ending_wakes_who_waits<W, F: Fn(&RawResponse<'_>) -> bool>(
    before: InnerView<W, F>,
    stream: StreamView,
    waker: W,
    next: W,
)
    requires
        before.wf(),
        before.registered(stream.id),
        waits_alone(before, before.place(stream.id), waker),
    ensures
        ({
            let after = before.finished();
            let (polled, _, _) = poll_step(stream, after, next);
            &&& times(before.all_parked(), waker) == 1
            &&& nobody_waits(after, waker)
            &&& after.registered(stream.id)
            &&& stream.waiting(after) == stream.waiting(before)
            &&& if stream.waiting(before).len() > 0 {
                polled == Poll::Ready(Some(stream.waiting(before)[0]))
            } else {
                polled == Poll::Ready(None::<ResponseStreamItem>)
            }
        }),
{
    let after = before.finished();
    let i = before.place(stream.id);
    lemma_parked_times(before, before.instances.len(), i, waker);
    assert(after.instances[i].id == stream.id);
    assert(after.wf());
    lemma_place(after, i);
    assert(after.instance(stream.id).queue == before.instance(stream.id).queue);
    stream_emits_in_order(stream, after, next);
}

/// A clone has the same messages waiting as the stream that is cloned, which keeps what it has. It
/// takes the same messages, and no other stream notices.
pub proof fn clone_has_the_same_waiting<W, F: Fn(&RawResponse<'_>) -> bool>(
    before: InnerView<W, F>,
    stream: StreamView,
    other: u64,
)
    requires
        before.wf(),
        before.registered(stream.id),
        before.registered(other),
        before.next_id < u64::MAX,
    ensures
        ({
            let instance = before.instance(stream.id);
            let after = before.with_stream(instance.queue, instance.filter);
            let copy = StreamView { hub: before.hub, id: before.next_id, queue: stream.queue };
            &&& after.wf()
            &&& after.registered(copy.id)
            &&& copy.waiting(after) == stream.waiting(before)
            &&& stream.waiting(after) == stream.waiting(before)
            &&& after.instance(copy.id).filter == instance.filter
            &&& after.registered(other)
            &&& after.instance(other) == before.instance(other)
        }),
{
    let instance = before.instance(stream.id);
    let after = before.with_stream(instance.queue, instance.filter);
    let i = before.place(stream.id);
    let k = before.place(other);
    assert(before.instances[i].filter.wf());
    assert(after.wf());
    lemma_place(after, i);
    lemma_place(after, k);
    lemma_place(after, after.instances.len() - 1);
    assert(after.instances[i] == before.instances[i]);
    assert(after.instances[k] == before.instances[k]);
}

/// A stream emits what is waiting, first come first, and nothing gets lost: each poll emits the
/// first message that waits, and leaves the others. It ends just when nothing waits and no more
/// will come, and only then stays as it is; else it waits, with its waker kept.
pub proof fn stream_emits_in_order<W, F: Fn(&RawResponse<'_>) -> bool>(
    stream: StreamView,
    inner: InnerView<W, F>,
    waker: W,
)
    requires
        inner.wf(),
        inner.registered(stream.id),
    ensures
        ({
            let waiting = stream.waiting(inner);
            let (polled, stream_after, inner_after) = poll_step(stream, inner, waker);
            &&& inner_after.wf()
            &&& inner_after.registered(stream.id)
            &&& stream_after.id == stream.id
            &&& if waiting.len() > 0 {
                &&& polled == Poll::Ready(Some(waiting[0]))
                &&& stream_after.waiting(inner_after) == waiting.drop_first()
            } else if inner.done {
                &&& polled == Poll::Ready(None::<ResponseStreamItem>)
                &&& stream_after == stream
                &&& inner_after == inner
            } else {
                &&& polled == Poll::<Option<ResponseStreamItem>>::Pending
                &&& stream_after.waiting(inner_after) == waiting
                &&& inner_after.instance(stream.id).waker == Some(waker)
            }
        }),
{
    let i = inner.place(stream.id);
    let instance = inner.instance(stream.id);
    let (polled, stream_after, inner_after) = poll_step(stream, inner, waker);
    if stream.queue.len() > 0 {
        assert(stream.waiting(inner).drop_first() =~= stream.queue.drop_first() + instance.queue);
    } else {
        assert(stream.queue + instance.queue =~= instance.queue);
        lemma_changed(inner, i, inner_after);
        if instance.queue.len() > 0 {
            assert(stream_after.queue + Seq::<ResponseStreamItem>::empty() =~= stream_after.queue);
        }
    }
}

/// Polling one stream leaves the others as they are.
pub proof fn streams_are_polled_apart<W, F: Fn(&RawResponse<'_>) -> bool>(
    stream: StreamView,
    inner: InnerView<W, F>,
    waker: W,
    other: StreamView,
)
    requires
        inner.wf(),
        inner.registered(stream.id),
        inner.registered(other.id),
        other.id != stream.id,
    ensures
        ({
            let after = poll_step(stream, inner, waker).2;
            &&& after.registered(other.id)
            &&& after.instance(other.id) == inner.instance(other.id)
            &&& other.waiting(after) == other.waiting(inner)
        }),
{
    let after = poll_step(stream, inner, waker).2;
    let i = inner.place(stream.id);
    let j = inner.place(other.id);
    assert(inner.instances[i].id == stream.id);
    assert(inner.instances[j].id == other.id);
    lemma_changed(inner, i, after);
    assert(after.instances[j] == inner.instances[j]);
    lemma_place(after, j);
}

proof fn lemma_changed<W, F: Fn(&RawResponse<'_>) -> bool>(
    inner: InnerView<W, F>,
    i: int,
    after: InnerView<W, F>,
)
    requires
        inner.wf(),
        0 <= i < inner.instances.len(),
        after.done == inner.done,
        after.next_id == inner.next_id,
        after.instances.len() == inner.instances.len(),
        forall|j: int|
            0 <= j < inner.instances.len() && j != i ==> #[trigger] after.instances[j]
                == inner.instances[j],
        after.instances[i].id == inner.instances[i].id,
        after.instances[i].filter == inner.instances[i].filter,
    ensures
        after.wf(),
        after.registered(inner.instances[i].id),
        after.place(inner.instances[i].id) == i,
{
    assert(after.wf());
    lemma_place(after, i);
}

/// Once no more messages will come this stays so, whatever is done to the streams.
pub proof fn done_is_permanent<W, F: Fn(&RawResponse<'_>) -> bool>(
    inner: InnerView<W, F>,
    stream: StreamView,
    waker: W,
    queue: Seq<ResponseStreamItem>,
    filter: Filter<F>,
    message: ResponseStreamItem,
    chosen: Seq<bool>,
)
    requires
        inner.done,
    ensures
        poll_step(stream, inner, waker).2.done,
        inner.with_stream(queue, filter).done,
        inner.without(stream.id).done,
        inner.delivered(message, chosen).done,
        inner.finished().done,
{
}

/// A message that is broadcast while a request waits for it is what the request gets: the
/// request has nothing waiting when it is made, and the response to it is then the first.
pub proof fn response_answers_request<W, F: Fn(&RawResponse<'_>) -> bool>(
    start: InnerView<W, F>,
    before: InnerView<W, F>,
    number: u64,
    message: ResponseStreamItem,
    after: InnerView<W, F>,
    wakers: Seq<W>,
    waker: W,
)
    requires
        start.wf(),
        start.next_id < u64::MAX,
        before.wf(),
        waits_for_reply(start, before, decimal(number as nat)),
        before.may_broadcast(message, after, wakers),
        message@.id() == Some(decimal(number as nat)),
    ensures
        ({
            let stream = StreamView { hub: start.hub, id: start.next_id, queue: seq![] };
            &&& stream.waiting(before) == Seq::<ResponseStreamItem>::empty()
            &&& stream.waiting(after) == seq![message]
            &&& poll_step(stream, after, waker).0 == Poll::Ready(Some(message))
        }),
{
    let stream = StreamView { hub: start.hub, id: start.next_id, queue: seq![] };
    let i = before.instances.len() - 1;
    let filter = before.instances.last().filter;
    assert(before.instances[i].id == start.next_id);
    if let Filter::Reply(text) = filter {
        reply_reaches_its_request(before, message, after, wakers, i, text);
    }
    broadcast_delivers_once(before, message, after, wakers, i);
    lemma_place(before, i);
    lemma_place(after, i);
    assert(stream.waiting(before) =~= Seq::<ResponseStreamItem>::empty());
    assert(stream.waiting(after) =~= seq![message]);
}

/// A stream that is closed is gone, and the others do not notice.
pub proof fn closing_leaves_the_others<W, F: Fn(&RawResponse<'_>) -> bool>(
    before: InnerView<W, F>,
    stream: StreamView,
    other: StreamView,
)
    requires
        before.wf(),
        before.registered(stream.id),
        before.registered(other.id),
        other.id != stream.id,
    ensures
        ({
            let after = before.without(stream.id);
            &&& after.wf()
            &&& !after.registered(stream.id)
            &&& after.registered(other.id)
            &&& after.instance(other.id) == before.instance(other.id)
            &&& other.waiting(after) == other.waiting(before)
        }),
{
    let after = before.without(stream.id);
    let i = before.place(stream.id);
    let j = before.place(other.id);
    let moved = if j < i {
        j
    } else {
        j - 1
    };
    assert(before.instances[i].id == stream.id);
    assert(before.instances[j].id == other.id);
    assert forall|k: int| 0 <= k < after.instances.len() implies (#[trigger] after.instances[k]).id
        != stream.id && after.instances[k] == before.instances[if k < i {
        k
    } else {
        k + 1
    }] by {
        if k < i {
            assert(before.instances[k].id != before.instances[i].id);
        } else {
            assert(before.instances[i].id != before.instances[k + 1].id);
        }
    }
    assert(after.wf());
    assert(after.instances[moved] == before.instances[j]);
    lemma_place(after, moved);
}

/// A request that ends leaves the streams as they were before it.
pub proof fn request_leaves_no_stream<W, F: Fn(&RawResponse<'_>) -> bool>(
    before: InnerView<W, F>,
    filter: Filter<F>,
)
    requires
        before.wf(),
        before.next_id < u64::MAX,
        filter.wf(),
    ensures
        before.with_stream(seq![], filter).without(before.next_id).instances == before.instances,
{
    let during = before.with_stream(seq![], filter);
    assert(during.wf());
    let last = during.instances.len() - 1;
    assert(during.instances[last].id == before.next_id);
    lemma_place(during, last);
    assert(during.without(before.next_id).instances =~= before.instances);
}

} // verus!
