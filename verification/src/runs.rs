//! What holds of the client over any number of steps.
use crate::laws::{broadcast_delivers_once, got, stream_emits_in_order};
use crate::raw_response::{decoded, RawResponse, ResponseView};
use crate::response_stream::{
    ends, lemma_place, poll_step, polled_message, Filter, InnerView, Poll, ResponseStreamError,
    ResponseStreamItem, StreamView,
};
use crate::text::{decimal, decimal_is_injective};
use vstd::prelude::*;

verus! {

/// One poll of the driver, or of the master that it drives.
pub struct DriverPoll<Receiving, W, E, F, X> {
    /// It had finished before.
    pub done: bool,
    /// The message that had been asked for before and had not come.
    pub receiving: Option<Receiving>,
    /// The message that was waited for.
    pub waited: Receiving,
    /// What came of waiting for it.
    pub res: Result<Option<Result<Vec<u8>, E>>, Receiving>,
    /// What says what is wrong with a message.
    pub explain: X,
    /// What the poll came to.
    pub polled: Poll<Option<Result<ResponseStreamItem, ResponseStreamError<E>>>>,
    /// The message that has been asked for and has still not come.
    pub still: Option<Receiving>,
    /// What the streams shared before.
    pub before: InnerView<W, F>,
    /// What they share after it.
    pub after: InnerView<W, F>,
    /// What was woken.
    pub wakers: Seq<W>,
}

impl<
    Receiving,
    W,
    E,
    F: Fn(&RawResponse<'_>) -> bool,
    X: FnOnce(&[u8]) -> serde_json::Error,
> DriverPoll<Receiving, W, E, F, X> {
    /// Whether a poll can go like this.
    pub open spec fn possible(self) -> bool {
        &&& self.before.wf()
        &&& if self.done {
            &&& self.polled matches Poll::Ready(None)
            &&& self.still == self.receiving
            &&& self.after == self.before
            &&& self.wakers == Seq::<W>::empty()
        } else {
            &&& self.receiving matches Some(asked) ==> self.waited == asked
            &&& polled_message(
                self.res,
                self.explain,
                self.polled,
                self.still,
                self.before,
                self.after,
                self.wakers,
            )
        }
    }

    /// Whether `next` can be the poll after this one. What is done to the streams meanwhile does
    /// not matter.
    pub open spec fn goes_on(self, next: Self) -> bool {
        next.receiving == self.still && next.done == ends(self.polled)
    }

    /// Whether the receiver is asked for another message.
    pub open spec fn asks(self) -> bool {
        !self.done && self.receiving is None
    }

    /// Whether the message that is waited for has come, or the end has.
    pub open spec fn comes(self) -> bool {
        !self.done && self.res is Ok
    }

    /// Whether the bytes of a message are taken from the receiver.
    pub open spec fn takes(self) -> bool {
        !self.done && (self.res matches Ok(Some(Ok(_))))
    }

    /// How many messages the stream with this number is given.
    pub open spec fn gives(self, id: u64) -> int {
        if self.before.registered(id) {
            self.after.instance(id).queue.len() - self.before.instance(id).queue.len()
        } else {
            0
        }
    }
}

/// Polls of one driver, one after the other.
pub open spec fn is_run<
    Receiving,
    W,
    E,
    F: Fn(&RawResponse<'_>) -> bool,
    X: FnOnce(&[u8]) -> serde_json::Error,
>(
    polls: Seq<DriverPoll<Receiving, W, E, F, X>>,
) -> bool {
    &&& forall|k: int| 0 <= k < polls.len() ==> (#[trigger] polls[k]).possible()
    &&& forall|k: int| #![trigger polls[k]] 0 < k < polls.len() ==> polls[k - 1].goes_on(polls[k])
}

/// Whether the first of these polls is the first one of the driver.
pub open spec fn starts_fresh<
    Receiving,
    W,
    E,
    F: Fn(&RawResponse<'_>) -> bool,
    X: FnOnce(&[u8]) -> serde_json::Error,
>(
    polls: Seq<DriverPoll<Receiving, W, E, F, X>>,
) -> bool {
    polls.len() > 0 ==> !polls[0].done && polls[0].receiving is None
}

/// How often the receiver has been asked for a message.
pub open spec fn asked<
    Receiving,
    W,
    E,
    F: Fn(&RawResponse<'_>) -> bool,
    X: FnOnce(&[u8]) -> serde_json::Error,
>(
    polls: Seq<DriverPoll<Receiving, W, E, F, X>>,
) -> nat
    decreases polls.len(),
{
    if polls.len() == 0 {
        0
    } else {
        asked(polls.drop_last()) + (if polls.last().asks() {
            1nat
        } else {
            0nat
        })
    }
}

/// How many of the messages that were asked for have come, the end included.
pub open spec fn come<
    Receiving,
    W,
    E,
    F: Fn(&RawResponse<'_>) -> bool,
    X: FnOnce(&[u8]) -> serde_json::Error,
>(
    polls: Seq<DriverPoll<Receiving, W, E, F, X>>,
) -> nat
    decreases polls.len(),
{
    if polls.len() == 0 {
        0
    } else {
        come(polls.drop_last()) + (if polls.last().comes() {
            1nat
        } else {
            0nat
        })
    }
}

/// How many messages have been taken from the receiver.
pub open spec fn taken<
    Receiving,
    W,
    E,
    F: Fn(&RawResponse<'_>) -> bool,
    X: FnOnce(&[u8]) -> serde_json::Error,
>(
    polls: Seq<DriverPoll<Receiving, W, E, F, X>>,
) -> nat
    decreases polls.len(),
{
    if polls.len() == 0 {
        0
    } else {
        taken(polls.drop_last()) + (if polls.last().takes() {
            1nat
        } else {
            0nat
        })
    }
}

/// How many messages the stream with this number has been given.
pub open spec fn given<
    Receiving,
    W,
    E,
    F: Fn(&RawResponse<'_>) -> bool,
    X: FnOnce(&[u8]) -> serde_json::Error,
>(
    polls: Seq<DriverPoll<Receiving, W, E, F, X>>,
    id: u64,
) -> int
    decreases polls.len(),
{
    if polls.len() == 0 {
        0
    } else {
        given(polls.drop_last(), id) + polls.last().gives(id)
    }
}

proof fn lemma_shorter_run<
    Receiving,
    W,
    E,
    F: Fn(&RawResponse<'_>) -> bool,
    X: FnOnce(&[u8]) -> serde_json::Error,
>(
    polls: Seq<DriverPoll<Receiving, W, E, F, X>>,
)
    requires
        is_run(polls),
        polls.len() > 0,
    ensures
        is_run(polls.drop_last()),
{
    let shorter = polls.drop_last();
    assert forall|k: int| 0 <= k < shorter.len() implies (#[trigger] shorter[k]).possible() by {
        assert(shorter[k] == polls[k]);
    }
    assert forall|k: int| #![trigger shorter[k]] 0 < k < shorter.len() implies shorter[k - 1].goes_on(
        shorter[k],
    ) by {
        assert(shorter[k] == polls[k]);
        assert(shorter[k - 1] == polls[k - 1]);
    }
}

/// A message is asked for once and then waited for until it comes: as often as the receiver has
/// been asked for a message one has come, but for the one that is still waited for. A poll leaves
/// one to be waited for just when it says so, which it does just when nothing has ended before and
/// the message has not come.
pub proof fn each_message_is_asked_for_once<
    Receiving,
    W,
    E,
    F: Fn(&RawResponse<'_>) -> bool,
    X: FnOnce(&[u8]) -> serde_json::Error,
>(
    polls: Seq<DriverPoll<Receiving, W, E, F, X>>,
)
    requires
        is_run(polls),
        starts_fresh(polls),
    ensures
        asked(polls) == come(polls) + (if polls.len() > 0 && polls.last().polled is Pending {
            1nat
        } else {
            0nat
        }),
        polls.len() > 0 ==> (polls.last().polled is Pending <==> polls.last().still is Some),
        polls.len() > 0 ==> (polls.last().polled is Pending <==> !polls.last().done
            && polls.last().res is Err),
    decreases polls.len(),
{
    if polls.len() > 0 {
        let shorter = polls.drop_last();
        let last = polls.last();
        lemma_shorter_run(polls);
        assert(polls[polls.len() - 1].possible());
        if shorter.len() > 0 {
            assert(shorter[0] == polls[0]);
            assert(shorter.last() == polls[polls.len() - 2]);
            assert(polls[polls.len() - 2].goes_on(polls[polls.len() - 1]));
        } else {
            assert(polls[0] == last);
        }
        each_message_is_asked_for_once(shorter);
    }
}

/// One poll gives a stream at most one message, and only one that it takes from the receiver.
proof fn lemma_gives<
    Receiving,
    W,
    E,
    F: Fn(&RawResponse<'_>) -> bool,
    X: FnOnce(&[u8]) -> serde_json::Error,
>(
    poll: DriverPoll<Receiving, W, E, F, X>,
    id: u64,
)
    requires
        poll.possible(),
    ensures
        0 <= poll.gives(id) <= (if poll.takes() {
            1int
        } else {
            0int
        }),
{
    if poll.before.registered(id) && poll.after != poll.before {
        let i = poll.before.place(id);
        assert(poll.before.instances[i].id == id);
        if let Ok(Some(Ok(_))) = poll.res {
            if let Poll::Ready(Some(Ok(message))) = poll.polled {
                broadcast_delivers_once(poll.before, message, poll.after, poll.wakers, i);
                lemma_place(poll.after, i);
            }
        } else {
            assert(poll.after == poll.before.finished());
            assert(poll.after.instances[i].id == id);
            assert(poll.after.wf());
            lemma_place(poll.after, i);
        }
    }
}

/// Backpressure: polling the driver some number of times takes at most that many messages from the
/// receiver, and gives each stream at most as many as were taken. Without polling nothing is
/// asked for, taken or given.
pub proof fn polling_less_takes_less<
    Receiving,
    W,
    E,
    F: Fn(&RawResponse<'_>) -> bool,
    X: FnOnce(&[u8]) -> serde_json::Error,
>(
    polls: Seq<DriverPoll<Receiving, W, E, F, X>>,
    id: u64,
)
    requires
        is_run(polls),
    ensures
        0 <= given(polls, id) <= taken(polls) <= come(polls) <= polls.len(),
        asked(polls) <= polls.len(),
    decreases polls.len(),
{
    if polls.len() > 0 {
        lemma_shorter_run(polls);
        polling_less_takes_less(polls.drop_last(), id);
        assert(polls[polls.len() - 1].possible());
        lemma_gives(polls.last(), id);
    }
}

/// How many of the messages that these polls have handed on the stream with this number takes.
pub open spec fn taken_by<
    Receiving,
    W,
    E,
    F: Fn(&RawResponse<'_>) -> bool,
    X: FnOnce(&[u8]) -> serde_json::Error,
>(
    polls: Seq<DriverPoll<Receiving, W, E, F, X>>,
    id: u64,
    accepts: spec_fn(ResponseStreamItem) -> bool,
) -> int
    decreases polls.len(),
{
    if polls.len() == 0 {
        0
    } else {
        taken_by(polls.drop_last(), id, accepts) + (match polls.last().polled {
            Poll::Ready(Some(Ok(message))) => if takes(
                polls.last().before.instance(id).filter,
                accepts,
                message,
            ) {
                1int
            } else {
                0int
            },
            _ => 0int,
        })
    }
}

/// What is taken reaches who takes it: over any polls of the driver during which a stream is
/// registered that takes no leftovers, it is given exactly the messages that its filter takes, no
/// more and no fewer.
pub proof fn streams_are_given_all_that_they_take<
    Receiving,
    W,
    E,
    F: Fn(&RawResponse<'_>) -> bool,
    X: FnOnce(&[u8]) -> serde_json::Error,
>(
    polls: Seq<DriverPoll<Receiving, W, E, F, X>>,
    id: u64,
    accepts: spec_fn(ResponseStreamItem) -> bool,
)
    requires
        is_run(polls),
        forall|k: int|
            #![trigger polls[k]]
            0 <= k < polls.len() ==> polls[k].before.registered(id) && !(polls[k].before.instance(
                id,
            ).filter is Leftovers) && is_pure(polls[k].before.instance(id).filter, accepts),
    ensures
        given(polls, id) == taken_by(polls, id, accepts),
    decreases polls.len(),
{
    if polls.len() > 0 {
        let shorter = polls.drop_last();
        let last = polls.last();
        lemma_shorter_run(polls);
        assert forall|k: int| #![trigger shorter[k]] 0 <= k < shorter.len() implies shorter[
            k
        ].before.registered(id) && !(shorter[k].before.instance(id).filter is Leftovers) && is_pure(
            shorter[k].before.instance(id).filter,
            accepts,
        ) by {
            assert(shorter[k] == polls[k]);
        }
        streams_are_given_all_that_they_take(shorter, id, accepts);
        assert(polls[polls.len() - 1] == last);
        assert(last.possible());
        lemma_gives(last, id);
        if let Poll::Ready(Some(Ok(message))) = last.polled {
            let step = Broadcast {
                message,
                before: last.before,
                after: last.after,
                wakers: last.wakers,
            };
            assert(step.possible());
            lemma_takes(step, id, accepts);
            lemma_reaches(step, id);
        } else if last.after != last.before {
            let i = last.before.place(id);
            assert(last.after == last.before.finished());
            assert(last.after.instances[i].id == id);
            assert(last.after.wf());
            lemma_place(last.after, i);
        }
    }
}

/// The bytes that a poll takes are handed on as a message just where they hold a response of
/// version 2.0, and then it is that response. Other bytes are handed on as an error that is not
/// fatal.
pub proof fn what_is_taken_is_handed_on<
    Receiving,
    W,
    E,
    F: Fn(&RawResponse<'_>) -> bool,
    X: FnOnce(&[u8]) -> serde_json::Error,
>(poll: DriverPoll<Receiving, W, E, F, X>, bytes: Vec<u8>)
    requires
        poll.possible(),
        !poll.done,
        poll.res == Ok::<Option<Result<Vec<u8>, E>>, Receiving>(Some(Ok(bytes))),
    ensures
        match decoded(bytes@) {
            Some(ResponseView::Success(ok)) if ok.jsonrpc == "2.0"@ => poll.polled matches Poll::Ready(
                Some(Ok(message)),
            ) && message@ == ResponseView::Success(ok),
            Some(ResponseView::Error(error)) if error.jsonrpc == "2.0"@ => poll.polled matches Poll::Ready(
                Some(Ok(message)),
            ) && message@ == ResponseView::Error(error),
            _ => poll.polled matches Poll::Ready(Some(Err(ResponseStreamError::Response(_)))),
        },
        !ends(poll.polled),
{
}

/// Polling ends just at the end of the connection and at an error of the backend.
pub proof fn only_the_end_and_fatal_errors_end<T, E>(
    polled: Poll<Option<Result<T, ResponseStreamError<E>>>>,
)
    ensures
        ends(polled) <==> (polled matches Poll::Ready(None)) || (polled matches Poll::Ready(
            Some(Err(ResponseStreamError::BackendError(_))),
        )),
{
}

/// Whether these are the numbers that a fresh client gives to its requests, in their order.
pub open spec fn numbers_of_requests(numbers: Seq<u64>) -> bool {
    &&& numbers.len() > 0 ==> numbers[0] == 1
    &&& forall|k: int|
        #![trigger numbers[k]]
        0 < k < numbers.len() ==> numbers[k] == (numbers[k - 1] + 1) % 0x1_0000_0000_0000_0000
}

/// The requests of a client are numbered from one on, and no two of them have the same ID.
pub proof fn requests_have_their_own_ids(numbers: Seq<u64>, j: int, k: int)
    requires
        numbers_of_requests(numbers),
        numbers.len() < 0x1_0000_0000_0000_0000,
        0 <= j < k < numbers.len(),
    ensures
        numbers[j] == j + 1,
        numbers[k] == k + 1,
        decimal(numbers[j] as nat) != decimal(numbers[k] as nat),
{
    lemma_numbered(numbers, j);
    lemma_numbered(numbers, k);
    decimal_is_injective(numbers[j] as nat, numbers[k] as nat);
}

proof fn lemma_numbered(numbers: Seq<u64>, k: int)
    requires
        numbers_of_requests(numbers),
        numbers.len() < 0x1_0000_0000_0000_0000,
        0 <= k < numbers.len(),
    ensures
        numbers[k] == k + 1,
    decreases k,
{
    if k > 0 {
        lemma_numbered(numbers, k - 1);
        assert(numbers[k] == (numbers[k - 1] + 1) % 0x1_0000_0000_0000_0000);
    }
}

/// What a stream emits when it is polled `n` times, and what the stream and the state are then.
pub open spec fn emitted<W, F>(stream: StreamView, inner: InnerView<W, F>, waker: W, n: nat) -> (
    Seq<ResponseStreamItem>,
    StreamView,
    InnerView<W, F>,
)
    decreases n,
{
    if n == 0 {
        (seq![], stream, inner)
    } else {
        let (items, before, state) = emitted(stream, inner, waker, (n - 1) as nat);
        let (polled, after, state) = poll_step(before, state, waker);
        match polled {
            Poll::Ready(Some(item)) => (items.push(item), after, state),
            _ => (items, after, state),
        }
    }
}

/// Polling a stream as often as messages wait emits these messages, each once and in their order.
#[verifier::spinoff_prover]
#[verifier::rlimit(50)]
pub proof fn polling_emits_what_waits<W, F: Fn(&RawResponse<'_>) -> bool>(
    stream: StreamView,
    inner: InnerView<W, F>,
    waker: W,
    n: nat,
)
    requires
        inner.wf(),
        inner.registered(stream.id),
        n <= stream.waiting(inner).len(),
    ensures
        ({
            let (items, after, state) = emitted(stream, inner, waker, n);
            &&& items == stream.waiting(inner).take(n as int)
            &&& after.waiting(state) == stream.waiting(inner).skip(n as int)
            &&& after.id == stream.id
            &&& state.wf()
            &&& state.registered(stream.id)
        }),
    decreases n,
{
    let waiting = stream.waiting(inner);
    if n == 0 {
        assert(waiting.take(0) =~= seq![]);
        assert(waiting.skip(0) =~= waiting);
    } else {
        polling_emits_what_waits(stream, inner, waker, (n - 1) as nat);
        let (items, before, state) = emitted(stream, inner, waker, (n - 1) as nat);
        stream_emits_in_order(before, state, waker);
        assert(waiting.skip(n - 1)[0] == waiting[n - 1]);
        assert(waiting.take(n as int) =~= waiting.take(n - 1).push(waiting[n - 1]));
        assert(waiting.skip(n - 1).drop_first() =~= waiting.skip(n as int));
    }
}

/// One broadcast of a message.
pub struct Broadcast<W, F> {
    pub message: ResponseStreamItem,
    pub before: InnerView<W, F>,
    pub after: InnerView<W, F>,
    pub wakers: Seq<W>,
}

impl<W, F: Fn(&RawResponse<'_>) -> bool> Broadcast<W, F> {
    /// Whether a broadcast can go like this.
    pub open spec fn possible(self) -> bool {
        self.before.wf() && self.before.may_broadcast(self.message, self.after, self.wakers)
    }

    /// Whether the stream with this number gets the message.
    pub open spec fn reaches(self, id: u64) -> bool {
        got(self.before, self.after, self.message, self.before.place(id))
    }
}

/// Broadcasts, one after the other, between which nothing is done to the stream with this number.
pub open spec fn are_broadcast<W, F: Fn(&RawResponse<'_>) -> bool>(
    run: Seq<Broadcast<W, F>>,
    id: u64,
) -> bool {
    &&& forall|k: int|
        0 <= k < run.len() ==> (#[trigger] run[k]).possible() && run[k].before.registered(id)
    &&& forall|k: int|
        #![trigger run[k]]
        0 < k < run.len() ==> run[k].before.instance(id).queue == run[k - 1].after.instance(id).queue
            && run[k].before.instance(id).filter == run[k - 1].after.instance(id).filter
}

/// The messages of these broadcasts that the stream with this number gets, in their order.
pub open spec fn received<W, F: Fn(&RawResponse<'_>) -> bool>(
    run: Seq<Broadcast<W, F>>,
    id: u64,
) -> Seq<ResponseStreamItem>
    decreases run.len(),
{
    if run.len() == 0 {
        seq![]
    } else if run.last().reaches(id) {
        received(run.drop_last(), id).push(run.last().message)
    } else {
        received(run.drop_last(), id)
    }
}

proof fn lemma_fewer_broadcasts<W, F: Fn(&RawResponse<'_>) -> bool>(
    run: Seq<Broadcast<W, F>>,
    id: u64,
)
    requires
        are_broadcast(run, id),
        run.len() > 0,
    ensures
        are_broadcast(run.drop_last(), id),
{
    let shorter = run.drop_last();
    assert forall|k: int| 0 <= k < shorter.len() implies (#[trigger] shorter[k]).possible()
        && shorter[k].before.registered(id) by {
        assert(shorter[k] == run[k]);
    }
    assert forall|k: int| #![trigger shorter[k]] 0 < k < shorter.len() implies shorter[k].before.instance(
        id,
    ).queue == shorter[k - 1].after.instance(id).queue && shorter[k].before.instance(id).filter
        == shorter[k - 1].after.instance(id).filter by {
        assert(shorter[k] == run[k]);
        assert(shorter[k - 1] == run[k - 1]);
    }
}

/// What a broadcast does to one stream.
pub(crate) proof fn lemma_reaches<W, F: Fn(&RawResponse<'_>) -> bool>(step: Broadcast<W, F>, id: u64)
    requires
        step.possible(),
        step.before.registered(id),
    ensures
        step.after.registered(id),
        step.after.instance(id).filter == step.before.instance(id).filter,
        step.after.instance(id).queue == (if step.reaches(id) {
            step.before.instance(id).queue.push(step.message)
        } else {
            step.before.instance(id).queue
        }),
{
    let i = step.before.place(id);
    assert(step.before.instances[i].id == id);
    broadcast_delivers_once(step.before, step.message, step.after, step.wakers, i);
    lemma_place(step.after, i);
}

/// The messages that a stream gets are put behind those that it has, in their order, and its
/// filter stays.
pub proof fn messages_queue_up<W, F: Fn(&RawResponse<'_>) -> bool>(
    run: Seq<Broadcast<W, F>>,
    id: u64,
)
    requires
        are_broadcast(run, id),
        run.len() > 0,
    ensures
        run.last().after.registered(id),
        run.last().after.instance(id).queue == run[0].before.instance(id).queue + received(run, id),
        run.last().after.instance(id).filter == run[0].before.instance(id).filter,
        run.last().before.instance(id).filter == run[0].before.instance(id).filter,
    decreases run.len(),
{
    let start = run[0].before.instance(id).queue;
    let shorter = run.drop_last();
    assert(run[run.len() - 1].possible());
    lemma_reaches(run.last(), id);
    lemma_fewer_broadcasts(run, id);
    if shorter.len() > 0 {
        messages_queue_up(shorter, id);
        assert(shorter[0] == run[0]);
        assert(shorter.last() == run[run.len() - 2]);
        assert(run[run.len() - 1].before.instance(id).queue == run[run.len() - 2].after.instance(
            id,
        ).queue);
    } else {
        assert(received(shorter, id) =~= seq![]);
    }
    assert(run.last().after.instance(id).queue =~= start + received(run, id));
}

/// Whether the function of the user, where a filter has one, is a predicate.
pub open spec fn is_pure<F: Fn(&RawResponse<'_>) -> bool>(
    filter: Filter<F>,
    accepts: spec_fn(ResponseStreamItem) -> bool,
) -> bool {
    filter matches Filter::Matching(f) ==> forall|m: ResponseStreamItem, b: bool| #[trigger]
        call_ensures(*f, (&*m,), b) ==> b == accepts(m)
}

/// Whether a stream with this filter, which does not take leftovers, takes a message.
pub open spec fn takes<F>(
    filter: Filter<F>,
    accepts: spec_fn(ResponseStreamItem) -> bool,
    message: ResponseStreamItem,
) -> bool {
    match filter {
        Filter::Everything => true,
        Filter::Leftovers => false,
        Filter::Reply(id) => message@.id() == Some(id@),
        Filter::Notifications => message@.id() is None,
        Filter::Matching(_) => message@.id() is None && accepts(message),
    }
}

/// The messages of these broadcasts, in their order.
pub open spec fn messages_of<W, F>(run: Seq<Broadcast<W, F>>) -> Seq<ResponseStreamItem> {
    run.map_values(|step: Broadcast<W, F>| step.message)
}

pub(crate) proof fn lemma_takes<W, F: Fn(&RawResponse<'_>) -> bool>(
    step: Broadcast<W, F>,
    id: u64,
    accepts: spec_fn(ResponseStreamItem) -> bool,
)
    requires
        step.possible(),
        step.before.registered(id),
        !(step.before.instance(id).filter is Leftovers),
        is_pure(step.before.instance(id).filter, accepts),
    ensures
        step.reaches(id) == takes(step.before.instance(id).filter, accepts, step.message),
{
    let i = step.before.place(id);
    let before = step.before;
    let chosen = choose|chosen: Seq<bool>| #[trigger]
        before.may_answer(*step.message, chosen) && step.after == before.delivered(
            step.message,
            chosen,
        ) && step.wakers == before.woken(step.message, chosen, before.instances.len());
    assert(before.instances[i].filter.may_answer(*step.message, chosen[i]));
    broadcast_delivers_once(step.before, step.message, step.after, step.wakers, i);
}

/// Of the messages that are broadcast a stream gets exactly those that it takes, each once and in
/// their order: a stream with a filter of the user those without an ID that the filter accepts, a
/// stream of all notifications those without an ID, the stream of a request those with its ID.
pub proof fn streams_get_what_they_take<W, F: Fn(&RawResponse<'_>) -> bool>(
    run: Seq<Broadcast<W, F>>,
    id: u64,
    accepts: spec_fn(ResponseStreamItem) -> bool,
)
    requires
        are_broadcast(run, id),
        run.len() > 0,
        !(run[0].before.instance(id).filter is Leftovers),
        is_pure(run[0].before.instance(id).filter, accepts),
    ensures
        run.last().after.instance(id).queue == run[0].before.instance(id).queue + messages_of(
            run,
        ).filter(|m: ResponseStreamItem| takes(run[0].before.instance(id).filter, accepts, m)),
{
    messages_queue_up(run, id);
    lemma_received(run, id, run[0].before.instance(id).filter, accepts);
}

proof fn lemma_received<W, F: Fn(&RawResponse<'_>) -> bool>(
    run: Seq<Broadcast<W, F>>,
    id: u64,
    filter: Filter<F>,
    accepts: spec_fn(ResponseStreamItem) -> bool,
)
    requires
        are_broadcast(run, id),
        run.len() > 0 ==> run[0].before.instance(id).filter == filter,
        !(filter is Leftovers),
        is_pure(filter, accepts),
    ensures
        received(run, id) == messages_of(run).filter(
            |m: ResponseStreamItem| takes(filter, accepts, m),
        ),
    decreases run.len(),
{
    reveal(Seq::filter);
    let messages = messages_of(run);
    if run.len() > 0 {
        let shorter = run.drop_last();
        lemma_fewer_broadcasts(run, id);
        if shorter.len() > 0 {
            assert(shorter[0] == run[0]);
        }
        lemma_received(shorter, id, filter, accepts);
        messages_queue_up(run, id);
        assert(run[run.len() - 1].possible());
        lemma_takes(run.last(), id, accepts);
        assert(messages_of(shorter) =~= messages.drop_last());
        assert(messages.last() == run.last().message);
    }
}

/// A filter that accepts everything takes what a stream of all notifications takes.
pub proof fn accepting_everything_is_all<F>(f: std::sync::Arc<F>, message: ResponseStreamItem)
    ensures
        takes(Filter::Matching(f), |m: ResponseStreamItem| true, message) == takes(
            Filter::<F>::Notifications,
            |m: ResponseStreamItem| true,
            message,
        ),
{
}

/// Two streams with one filter get the same messages, whatever is broadcast: so do a stream and
/// its clone, from the clone on.
pub proof fn clones_get_the_same<W, F: Fn(&RawResponse<'_>) -> bool>(
    run: Seq<Broadcast<W, F>>,
    id: u64,
    copy: u64,
    accepts: spec_fn(ResponseStreamItem) -> bool,
)
    requires
        are_broadcast(run, id),
        are_broadcast(run, copy),
        run.len() > 0 ==> run[0].before.instance(id).filter == run[0].before.instance(copy).filter,
        run.len() > 0 ==> is_pure(run[0].before.instance(id).filter, accepts),
    ensures
        received(run, id) == received(run, copy),
    decreases run.len(),
{
    if run.len() > 0 {
        let shorter = run.drop_last();
        lemma_fewer_broadcasts(run, id);
        lemma_fewer_broadcasts(run, copy);
        if shorter.len() > 0 {
            assert(shorter[0] == run[0]);
        }
        clones_get_the_same(shorter, id, copy, accepts);
        messages_queue_up(run, id);
        messages_queue_up(run, copy);
        assert(run[run.len() - 1].possible());
        lemma_same(run.last(), id, copy, accepts);
    }
}

proof fn lemma_same<W, F: Fn(&RawResponse<'_>) -> bool>(
    step: Broadcast<W, F>,
    id: u64,
    copy: u64,
    accepts: spec_fn(ResponseStreamItem) -> bool,
)
    requires
        step.possible(),
        step.before.registered(id),
        step.before.registered(copy),
        step.before.instance(id).filter == step.before.instance(copy).filter,
        is_pure(step.before.instance(id).filter, accepts),
    ensures
        step.reaches(id) == step.reaches(copy),
{
    let i = step.before.place(id);
    let j = step.before.place(copy);
    let before = step.before;
    let chosen = choose|chosen: Seq<bool>| #[trigger]
        before.may_answer(*step.message, chosen) && step.after == before.delivered(
            step.message,
            chosen,
        ) && step.wakers == before.woken(step.message, chosen, before.instances.len());
    assert(before.instances[i].filter.may_answer(*step.message, chosen[i]));
    assert(before.instances[j].filter.may_answer(*step.message, chosen[j]));
    broadcast_delivers_once(step.before, step.message, step.after, step.wakers, i);
    broadcast_delivers_once(step.before, step.message, step.after, step.wakers, j);
}

} // verus!
