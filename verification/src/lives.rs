//! What holds of a stream over its whole life, whatever else is done meanwhile.
use crate::laws::{
    broadcast_delivers_once, closing_leaves_the_others, stream_emits_in_order,
    streams_are_polled_apart,
};
use crate::raw_response::RawResponse;
use crate::response_stream::{
    lemma_place, poll_step, Filter, InnerView, Poll, ResponseStreamItem, StreamView,
};
use crate::runs::{is_pure, lemma_reaches, lemma_takes, takes, Broadcast};
use vstd::prelude::*;

verus! {

/// What is done to the streams in one step of the life of one of them.
pub enum Event<W, F> {
    /// A message is broadcast, and these are woken.
    Broadcast(ResponseStreamItem, Seq<W>),
    /// The stream is polled with this waker.
    Poll(W),
    /// Another stream is polled with this waker.
    PollOther(StreamView, W),
    /// Another stream is made or cloned, with these messages and this filter.
    Register(Seq<ResponseStreamItem>, Filter<F>),
    /// The stream with this number, which is another one, is closed.
    Close(u64),
    /// No more messages will come.
    Finish,
}

/// One step of the life of a stream.
pub struct LifeStep<W, F> {
    pub event: Event<W, F>,
    /// The stream before.
    pub stream: StreamView,
    /// What the streams shared before.
    pub before: InnerView<W, F>,
    /// The stream after it.
    pub stream_after: StreamView,
    /// What the streams share after it.
    pub after: InnerView<W, F>,
}

impl<W, F: Fn(&RawResponse<'_>) -> bool> LifeStep<W, F> {
    /// Whether a step can go like this.
    pub open spec fn possible(self) -> bool {
        &&& self.before.wf()
        &&& self.before.registered(self.stream.id)
        &&& match self.event {
            Event::Poll(waker) => {
                let (_, stream_after, after) = poll_step(self.stream, self.before, waker);
                self.stream_after == stream_after && self.after == after
            },
            _ => self.stream_after == self.stream,
        }
        &&& match self.event {
            Event::Broadcast(message, wakers) => self.before.may_broadcast(
                message,
                self.after,
                wakers,
            ),
            Event::Poll(_) => true,
            Event::PollOther(other, waker) => {
                &&& self.before.registered(other.id)
                &&& other.id != self.stream.id
                &&& self.after == poll_step(other, self.before, waker).2
            },
            Event::Register(queue, filter) => {
                &&& filter.wf()
                &&& self.before.next_id < u64::MAX
                &&& self.after == self.before.with_stream(queue, filter)
            },
            Event::Close(id) => {
                &&& self.before.registered(id)
                &&& id != self.stream.id
                &&& self.after == self.before.without(id)
            },
            Event::Finish => self.after == self.before.finished(),
        }
    }

    /// The message that is broadcast, if one is.
    pub open spec fn broadcasts(self) -> Option<ResponseStreamItem> {
        match self.event {
            Event::Broadcast(message, _) => Some(message),
            _ => None,
        }
    }

    /// The broadcast, if there is one.
    pub open spec fn as_broadcast(self) -> Broadcast<W, F> {
        match self.event {
            Event::Broadcast(message, wakers) => Broadcast {
                message,
                before: self.before,
                after: self.after,
                wakers,
            },
            _ => arbitrary(),
        }
    }

    /// The message that the stream gets, if it gets one.
    pub open spec fn gets(self) -> Option<ResponseStreamItem> {
        match self.event {
            Event::Broadcast(message, _) => if self.as_broadcast().reaches(self.stream.id) {
                Some(message)
            } else {
                None
            },
            _ => None,
        }
    }

    /// The message that the stream emits, if it emits one.
    pub open spec fn emits(self) -> Option<ResponseStreamItem> {
        match self.event {
            Event::Poll(waker) => match poll_step(self.stream, self.before, waker).0 {
                Poll::Ready(item) => item,
                Poll::Pending => None,
            },
            _ => None,
        }
    }
}

/// Steps of the life of a stream, one after the other.
pub open spec fn is_life<W, F: Fn(&RawResponse<'_>) -> bool>(life: Seq<LifeStep<W, F>>) -> bool {
    &&& forall|k: int| 0 <= k < life.len() ==> (#[trigger] life[k]).possible()
    &&& forall|k: int|
        #![trigger life[k]]
        0 < k < life.len() ==> life[k].stream == life[k - 1].stream_after && life[k].before
            == life[k - 1].after
}

/// A sequence with one more item, if there is one.
pub open spec fn and_then_one<T>(items: Seq<T>, item: Option<T>) -> Seq<T> {
    match item {
        Some(item) => items.push(item),
        None => items,
    }
}

/// The messages that have been broadcast, in their order.
pub open spec fn all_broadcast<W, F: Fn(&RawResponse<'_>) -> bool>(
    life: Seq<LifeStep<W, F>>,
) -> Seq<ResponseStreamItem>
    decreases life.len(),
{
    if life.len() == 0 {
        seq![]
    } else {
        and_then_one(all_broadcast(life.drop_last()), life.last().broadcasts())
    }
}

/// The messages that the stream has got, in their order.
pub open spec fn all_got<W, F: Fn(&RawResponse<'_>) -> bool>(
    life: Seq<LifeStep<W, F>>,
) -> Seq<ResponseStreamItem>
    decreases life.len(),
{
    if life.len() == 0 {
        seq![]
    } else {
        and_then_one(all_got(life.drop_last()), life.last().gets())
    }
}

/// The messages that the stream has emitted, in their order.
pub open spec fn all_emitted<W, F: Fn(&RawResponse<'_>) -> bool>(
    life: Seq<LifeStep<W, F>>,
) -> Seq<ResponseStreamItem>
    decreases life.len(),
{
    if life.len() == 0 {
        seq![]
    } else {
        and_then_one(all_emitted(life.drop_last()), life.last().emits())
    }
}

/// A step keeps the stream registered, with its number and its filter. What it emits and what
/// waits after it are what waited before and what it gets.
proof fn lemma_step<W, F: Fn(&RawResponse<'_>) -> bool>(step: LifeStep<W, F>)
    requires
        step.possible(),
    ensures
        step.after.wf(),
        step.after.registered(step.stream.id),
        step.stream_after.id == step.stream.id,
        step.after.instance(step.stream.id).filter == step.before.instance(step.stream.id).filter,
        and_then_one(seq![], step.emits()) + step.stream_after.waiting(step.after) == and_then_one(
            step.stream.waiting(step.before),
            step.gets(),
        ),
{
    let stream = step.stream;
    let before = step.before;
    let after = step.after;
    let i = before.place(stream.id);
    let waiting = stream.waiting(before);
    assert(before.instances[i].id == stream.id);
    match step.event {
        Event::Broadcast(message, wakers) => {
            broadcast_delivers_once(before, message, after, wakers, i);
            lemma_reaches(step.as_broadcast(), stream.id);
            assert(stream.waiting(after) =~= and_then_one(waiting, step.gets()));
        },
        Event::Poll(waker) => {
            stream_emits_in_order(stream, before, waker);
            lemma_polled(stream, before, waker);
            if waiting.len() > 0 {
                assert(seq![waiting[0]] + waiting.drop_first() =~= waiting);
            }
        },
        Event::PollOther(other, waker) => {
            stream_emits_in_order(other, before, waker);
            streams_are_polled_apart(other, before, waker, stream);
        },
        Event::Register(queue, filter) => {
            assert(after.wf());
            assert(after.instances[i] == before.instances[i]);
            lemma_place(after, i);
        },
        Event::Close(id) => {
            let closed = StreamView { hub: before.hub, id, queue: seq![] };
            closing_leaves_the_others(before, closed, stream);
        },
        Event::Finish => {
            assert(after.wf());
            assert(after.instances[i].id == stream.id);
            lemma_place(after, i);
        },
    }
    assert(and_then_one(seq![], step.emits()) + step.stream_after.waiting(after) =~= and_then_one(
        waiting,
        step.gets(),
    ));
}

/// Polling a stream keeps its filter.
proof fn lemma_polled<W, F: Fn(&RawResponse<'_>) -> bool>(
    stream: StreamView,
    inner: InnerView<W, F>,
    waker: W,
)
    requires
        inner.wf(),
        inner.registered(stream.id),
    ensures
        poll_step(stream, inner, waker).2.instance(stream.id).filter == inner.instance(
            stream.id,
        ).filter,
{
    let after = poll_step(stream, inner, waker).2;
    let i = inner.place(stream.id);
    stream_emits_in_order(stream, inner, waker);
    assert(after.instances[i].id == stream.id);
    lemma_place(after, i);
}

proof fn lemma_shorter_life<W, F: Fn(&RawResponse<'_>) -> bool>(life: Seq<LifeStep<W, F>>)
    requires
        is_life(life),
        life.len() > 0,
    ensures
        is_life(life.drop_last()),
        life.last().possible(),
        life.len() > 1 ==> life.last().stream == life.drop_last().last().stream_after
            && life.last().before == life.drop_last().last().after && life.drop_last()[0]
            == life[0],
{
    let shorter = life.drop_last();
    assert(life[life.len() - 1].possible());
    assert forall|k: int| 0 <= k < shorter.len() implies (#[trigger] shorter[k]).possible() by {
        assert(shorter[k] == life[k]);
    }
    assert forall|k: int| #![trigger shorter[k]] 0 < k < shorter.len() implies shorter[k].stream
        == shorter[k - 1].stream_after && shorter[k].before == shorter[k - 1].after by {
        assert(shorter[k] == life[k]);
        assert(shorter[k - 1] == life[k - 1]);
    }
}

/// Whatever is done to the streams, in whatever order: what a stream has emitted, and behind it
/// what still waits in it, is what waited at first and behind it what it got, each message once
/// and in its order. The stream stays registered, with its number and its filter.
pub proof fn streams_emit_what_they_get<W, F: Fn(&RawResponse<'_>) -> bool>(
    life: Seq<LifeStep<W, F>>,
)
    requires
        is_life(life),
        life.len() > 0,
    ensures
        all_emitted(life) + life.last().stream_after.waiting(life.last().after)
            == life[0].stream.waiting(life[0].before) + all_got(life),
        life.last().after.wf(),
        life.last().stream.id == life[0].stream.id,
        life.last().stream_after.id == life[0].stream.id,
        life.last().after.registered(life[0].stream.id),
        life.last().before.instance(life[0].stream.id).filter == life[0].before.instance(
            life[0].stream.id,
        ).filter,
        life.last().after.instance(life[0].stream.id).filter == life[0].before.instance(
            life[0].stream.id,
        ).filter,
    decreases life.len(),
{
    let shorter = life.drop_last();
    let last = life.last();
    let start = life[0].stream.waiting(life[0].before);
    let one = and_then_one(seq![], last.emits());
    let middle = last.stream.waiting(last.before);
    lemma_shorter_life(life);
    lemma_step(last);
    if shorter.len() > 0 {
        streams_emit_what_they_get(shorter);
    } else {
        assert(all_emitted(shorter) =~= seq![]);
        assert(all_got(shorter) =~= seq![]);
        assert(all_emitted(shorter) + middle =~= start + all_got(shorter));
    }
    assert(all_emitted(life) =~= all_emitted(shorter) + one);
    assert(all_emitted(life) + last.stream_after.waiting(last.after) =~= all_emitted(shorter) + (one
        + last.stream_after.waiting(last.after)));
    assert(and_then_one(all_emitted(shorter) + middle, last.gets()) =~= all_emitted(shorter)
        + and_then_one(middle, last.gets()));
    assert(and_then_one(start + all_got(shorter), last.gets()) =~= start + all_got(life));
}

/// What a stream that takes no leftovers gets over its life is what it takes of all that is
/// broadcast.
proof fn lemma_got_is_taken<W, F: Fn(&RawResponse<'_>) -> bool>(
    life: Seq<LifeStep<W, F>>,
    filter: Filter<F>,
    accepts: spec_fn(ResponseStreamItem) -> bool,
)
    requires
        is_life(life),
        life.len() > 0 ==> life[0].before.instance(life[0].stream.id).filter == filter,
        !(filter is Leftovers),
        is_pure(filter, accepts),
    ensures
        all_got(life) == all_broadcast(life).filter(
            |m: ResponseStreamItem| takes(filter, accepts, m),
        ),
    decreases life.len(),
{
    reveal(Seq::filter);
    if life.len() > 0 {
        let shorter = life.drop_last();
        let last = life.last();
        lemma_shorter_life(life);
        lemma_got_is_taken(shorter, filter, accepts);
        streams_emit_what_they_get(life);
        if let Event::Broadcast(message, _) = last.event {
            lemma_takes(last.as_broadcast(), last.stream.id, accepts);
            assert(all_broadcast(life).drop_last() =~= all_broadcast(shorter));
            assert(all_broadcast(life).last() == message);
        }
    }
}

/// A stream that has just been made has nothing waiting.
pub proof fn new_streams_are_empty<W, F: Fn(&RawResponse<'_>) -> bool>(
    inner: InnerView<W, F>,
    filter: Filter<F>,
)
    requires
        inner.wf(),
        inner.next_id < u64::MAX,
        filter.wf(),
    ensures
        ({
            let stream = StreamView { hub: inner.hub, id: inner.next_id, queue: seq![] };
            let after = inner.with_stream(seq![], filter);
            &&& after.wf()
            &&& after.registered(stream.id)
            &&& stream.waiting(after) == Seq::<ResponseStreamItem>::empty()
            &&& after.instance(stream.id).filter == filter
        }),
{
    let stream = StreamView { hub: inner.hub, id: inner.next_id, queue: seq![] };
    let after = inner.with_stream(seq![], filter);
    assert(after.wf());
    lemma_place(after, after.instances.len() - 1);
    assert(stream.waiting(after) =~= Seq::<ResponseStreamItem>::empty());
}

/// Over the whole life of a stream, whatever else is done meanwhile: what it has emitted is a
/// prefix of what it got since it was made. If it takes no leftovers, that is what its filter
/// takes of all that was broadcast since then; if it takes everything, it is all of that.
pub proof fn streams_emit_a_prefix<W, F: Fn(&RawResponse<'_>) -> bool>(
    life: Seq<LifeStep<W, F>>,
    accepts: spec_fn(ResponseStreamItem) -> bool,
)
    requires
        is_life(life),
        life.len() > 0 ==> life[0].stream.waiting(life[0].before).len() == 0,
    ensures
        all_emitted(life).is_prefix_of(all_got(life)),
        life.len() > 0 ==> ({
            let filter = life[0].before.instance(life[0].stream.id).filter;
            &&& !(filter is Leftovers) && is_pure(filter, accepts) ==> all_emitted(
                life,
            ).is_prefix_of(
                all_broadcast(life).filter(|m: ResponseStreamItem| takes(filter, accepts, m)),
            )
            &&& filter is Everything ==> all_emitted(life).is_prefix_of(all_broadcast(life))
        }),
{
    if life.len() > 0 {
        let filter = life[0].before.instance(life[0].stream.id).filter;
        let rest = life.last().stream_after.waiting(life.last().after);
        let start = life[0].stream.waiting(life[0].before);
        streams_emit_what_they_get(life);
        assert(start + all_got(life) =~= all_got(life));
        assert((all_emitted(life) + rest).take(all_emitted(life).len() as int) =~= all_emitted(
            life,
        ));
        if !(filter is Leftovers) && is_pure(filter, accepts) {
            lemma_got_is_taken(life, filter, accepts);
        }
        if filter is Everything {
            lemma_all_taken(all_broadcast(life), |m: ResponseStreamItem| takes(filter, accepts, m));
        }
    }
}

/// Nothing is left out where everything is taken.
proof fn lemma_all_taken<T>(items: Seq<T>, taken: spec_fn(T) -> bool)
    requires
        forall|item: T| #[trigger] taken(item),
    ensures
        items.filter(taken) == items,
    decreases items.len(),
{
    reveal(Seq::filter);
    if items.len() > 0 {
        lemma_all_taken(items.drop_last(), taken);
        assert(taken(items.last()));
        assert(items.drop_last().push(items.last()) =~= items);
    }
}

} // verus!
