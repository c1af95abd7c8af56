//! A broadcast-style stream of decoded JSON-RPC responses.
//!
//! The state that the streams share is a [`ResponseStreamInner`]; whoever drives the streams
//! keeps it, behind a lock where that is needed, and hands it to each call. Wakers are values of
//! some type `W`: the caller hands one in where it has to wait, and is handed back those that
//! have to be woken.
use crate::backend::BackendReceiver;
use crate::raw_response::{decoded, may_explain, RawResponse, ResponseError};
use crate::text::same_text;
use std::collections::VecDeque;
use std::sync::Arc;
use vstd::prelude::*;

verus! {

/// A single item emitted by a [`ResponseStream`].
pub type ResponseStreamItem = Arc<RawResponse<'static>>;

/// What comes of polling: a value, or nothing yet.
#[derive(Debug)]
pub enum Poll<T> {
    /// The value is there.
    Ready(T),
    /// The value is not there yet.
    Pending,
}

/// Which messages a stream takes.
pub enum Filter<F> {
    /// Every message.
    Everything,
    /// Every message without an ID that no other kind of stream takes.
    Leftovers,
    /// The responses with this ID.
    Reply(String),
    /// Every message without an ID.
    Notifications,
    /// The messages without an ID that a function accepts.
    Matching(Arc<F>),
}

impl<F: Fn(&RawResponse<'_>) -> bool> Filter<F> {
    /// The function can be asked about any message.
    pub open spec fn wf(self) -> bool {
        self matches Filter::Matching(f) ==> forall|m: &RawResponse<'_>| #[trigger] call_requires(*f, (m,))
    }

    /// Whether the filter may answer `chosen` when it is asked about a message. Leftovers are
    /// not chosen by the message.
    pub open spec fn may_answer(self, message: RawResponse<'static>, chosen: bool) -> bool {
        match self {
            Filter::Everything => chosen,
            Filter::Leftovers => !chosen,
            Filter::Reply(id) => chosen == (message@.id() == Some(id@)),
            Filter::Notifications => chosen == (message@.id() is None),
            Filter::Matching(f) => if message@.id() is Some {
                !chosen
            } else {
                call_ensures(*f, (&message,), chosen)
            },
        }
    }

    /// Asks the filter about a message.
    pub fn asks(&self, message: &RawResponse<'static>) -> (chosen: bool)
        requires
            self.wf(),
        ensures
            self.may_answer(*message, chosen),
    {
        match self {
            Filter::Everything => true,
            Filter::Leftovers => false,
            Filter::Reply(id) => match message.id() {
                Some(message_id) => same_text(id.as_str(), message_id),
                None => false,
            },
            Filter::Notifications => message.id().is_none(),
            Filter::Matching(f) => {
                // Always ignore responses to requests:
                if message.id().is_some() {
                    return false;
                }
                (**f)(message)
            },
        }
    }

    fn duplicate(&self) -> (filter: Self)
        ensures
            filter == *self,
    {
        match self {
            Filter::Everything => Filter::Everything,
            Filter::Leftovers => Filter::Leftovers,
            Filter::Reply(id) => Filter::Reply(id.clone()),
            Filter::Notifications => Filter::Notifications,
            Filter::Matching(f) => Filter::Matching(f.clone()),
        }
    }
}

/// A single response stream, as the streams share it.
pub struct Instance<W, F> {
    id: u64,
    waker: Option<W>,
    queue: VecDeque<ResponseStreamItem>,
    filter: Filter<F>,
}

/// What a registered stream holds.
pub struct InstanceView<W, F> {
    /// The number under which the stream is registered.
    pub id: u64,
    /// What has to be woken when a message comes.
    pub waker: Option<W>,
    /// The messages that the stream has not fetched yet.
    pub queue: Seq<ResponseStreamItem>,
    /// Which messages the stream takes.
    pub filter: Filter<F>,
}

/// What the streams share.
pub struct InnerView<W, F> {
    /// Which state this is. Nothing else is known of it, so that what belongs to one state
    /// cannot be used with another.
    pub hub: int,
    /// No more messages will come.
    pub done: bool,
    /// The number for the next stream.
    pub next_id: u64,
    /// The registered streams.
    pub instances: Seq<InstanceView<W, F>>,
}

impl<W, F> View for Instance<W, F> {
    type V = InstanceView<W, F>;

    closed spec fn view(&self) -> InstanceView<W, F> {
        InstanceView { id: self.id, waker: self.waker, queue: self.queue@, filter: self.filter }
    }
}

impl<W, F> Instance<W, F> {
    /// The number under which the stream is registered.
    pub fn number(&self) -> (number: u64)
        ensures
            number == self@.id,
    {
        self.id
    }

    /// What has to be woken when a message comes.
    pub fn waker(&self) -> (waker: Option<&W>)
        ensures
            match waker {
                Some(waker) => self@.waker == Some(*waker),
                None => self@.waker is None,
            },
    {
        self.waker.as_ref()
    }

    /// The messages that the stream has not fetched yet.
    pub fn queue(&self) -> (queue: &VecDeque<ResponseStreamItem>)
        ensures
            queue@ == self@.queue,
    {
        &self.queue
    }
}

/// The state that the streams share.
pub struct ResponseStreamInner<W, F> {
    // Which state this is.
    hub: Ghost<int>,
    // Don't wait for any more messages; we're done.
    done: bool,
    // ID to assign to the next stream.
    next_id: u64,
    // Track instance details.
    instances: Vec<Instance<W, F>>,
}

impl<W, F> View for ResponseStreamInner<W, F> {
    type V = InnerView<W, F>;

    closed spec fn view(&self) -> InnerView<W, F> {
        InnerView {
            hub: self.hub@,
            done: self.done,
            next_id: self.next_id,
            instances: self.instances@.map_values(|i: Instance<W, F>| i@),
        }
    }
}

impl<W, F> InstanceView<W, F> {
    /// The stream once a message has been put into its queue, and it has been woken for it.
    pub open spec fn with_message(self, message: ResponseStreamItem) -> InstanceView<W, F> {
        InstanceView {
            id: self.id,
            waker: None,
            queue: self.queue.push(message),
            filter: self.filter,
        }
    }
}

impl<W, F> InnerView<W, F> {
    /// Whether a stream with this number is registered.
    pub open spec fn registered(self, id: u64) -> bool {
        exists|i: int| 0 <= i < self.instances.len() && (#[trigger] self.instances[i]).id == id
    }

    /// The place of the stream with this number.
    pub open spec fn place(self, id: u64) -> int {
        choose|i: int| 0 <= i < self.instances.len() && (#[trigger] self.instances[i]).id == id
    }

    /// The stream with this number.
    pub open spec fn instance(self, id: u64) -> InstanceView<W, F> {
        self.instances[self.place(id)]
    }

    /// The state with one more stream.
    pub open spec fn with_stream(
        self,
        queue: Seq<ResponseStreamItem>,
        filter: Filter<F>,
    ) -> InnerView<W, F> {
        InnerView {
            hub: self.hub,
            done: self.done,
            next_id: (self.next_id + 1) as u64,
            instances: self.instances.push(
                InstanceView { id: self.next_id, waker: None, queue, filter },
            ),
        }
    }

    /// The state with the stream of this number replaced.
    pub open spec fn with_instance(self, id: u64, instance: InstanceView<W, F>) -> InnerView<W, F> {
        InnerView {
            hub: self.hub,
            done: self.done,
            next_id: self.next_id,
            instances: self.instances.update(self.place(id), instance),
        }
    }

    /// The state without the stream of this number.
    pub open spec fn without(self, id: u64) -> InnerView<W, F> {
        InnerView {
            hub: self.hub,
            done: self.done,
            next_id: self.next_id,
            instances: self.instances.remove(self.place(id)),
        }
    }

    /// The state in which no more messages will come, and every stream that waited has been
    /// woken.
    pub open spec fn finished(self) -> InnerView<W, F> {
        InnerView {
            hub: self.hub,
            done: true,
            next_id: self.next_id,
            instances: Seq::new(
                self.instances.len(),
                |i: int| InstanceView { waker: None, ..self.instances[i] },
            ),
        }
    }

    /// The wakers of the first `n` streams, as far as these wait for a message.
    pub open spec fn parked(self, n: nat) -> Seq<W>
        decreases n,
    {
        if n == 0 {
            seq![]
        } else {
            let before = self.parked((n - 1) as nat);
            match self.instances[n - 1].waker {
                Some(waker) => before.push(waker),
                None => before,
            }
        }
    }

    /// The wakers of the streams that wait for a message.
    pub open spec fn all_parked(self) -> Seq<W> {
        self.parked(self.instances.len())
    }
}

impl<W, F: Fn(&RawResponse<'_>) -> bool> InnerView<W, F> {
    /// Streams are registered under different numbers, all of which have been assigned, and
    /// their filters can be asked about any message.
    pub open spec fn wf(self) -> bool {
        &&& forall|i: int, j: int|
            0 <= i < j < self.instances.len() ==> (#[trigger] self.instances[i]).id != (
            #[trigger] self.instances[j]).id
        &&& forall|i: int|
            0 <= i < self.instances.len() ==> (#[trigger] self.instances[i]).id < self.next_id
        &&& forall|i: int|
            0 <= i < self.instances.len() ==> (#[trigger] self.instances[i]).filter.wf()
    }

    /// Whether the filters may give these answers about a message.
    pub open spec fn may_answer(self, message: RawResponse<'static>, chosen: Seq<bool>) -> bool {
        &&& chosen.len() == self.instances.len()
        &&& forall|i: int|
            0 <= i < chosen.len() ==> (#[trigger] self.instances[i]).filter.may_answer(
                message,
                chosen[i],
            )
    }

    /// Whether the stream at `i` gets a message that the filters answer so about: it is chosen
    /// by its filter, or it takes leftovers, the message has no ID and no stream is chosen.
    pub open spec fn gets(self, message: ResponseStreamItem, chosen: Seq<bool>, i: int) -> bool {
        chosen[i] || (self.instances[i].filter is Leftovers && message@.id() is None
            && !chosen.contains(true))
    }

    /// The state once a message has been delivered.
    pub open spec fn delivered(self, message: ResponseStreamItem, chosen: Seq<bool>) -> InnerView<
        W,
        F,
    > {
        InnerView {
            hub: self.hub,
            done: self.done,
            next_id: self.next_id,
            instances: Seq::new(
                self.instances.len(),
                |i: int|
                    if self.gets(message, chosen, i) {
                        self.instances[i].with_message(message)
                    } else {
                        self.instances[i]
                    },
            ),
        }
    }

    /// The wakers of the first `n` streams, as far as these get a message and wait for one.
    pub open spec fn woken(
        self,
        message: ResponseStreamItem,
        chosen: Seq<bool>,
        n: nat,
    ) -> Seq<W>
        decreases n,
    {
        if n == 0 {
            seq![]
        } else {
            let before = self.woken(message, chosen, (n - 1) as nat);
            match self.instances[n - 1].waker {
                Some(waker) => if self.gets(message, chosen, n - 1) {
                    before.push(waker)
                } else {
                    before
                },
                None => before,
            }
        }
    }

    /// Whether broadcasting a message may lead to the state `after` with these streams woken.
    pub open spec fn may_broadcast(
        self,
        message: ResponseStreamItem,
        after: InnerView<W, F>,
        wakers: Seq<W>,
    ) -> bool {
        exists|chosen: Seq<bool>| #[trigger]
            self.may_answer(*message, chosen) && after == self.delivered(message, chosen) && wakers
                == self.woken(message, chosen, self.instances.len())
    }
}

impl<W, F: Fn(&RawResponse<'_>) -> bool> ResponseStreamInner<W, F> {
    /// Nothing is registered yet.
    pub fn new() -> (inner: Self)
        ensures
            inner@.wf(),
            !inner@.done,
            inner@.next_id == 1,
            inner@.instances == Seq::<InstanceView<W, F>>::empty(),
    {
        let inner = ResponseStreamInner {
            hub: Ghost(arbitrary()),
            done: false,
            next_id: 1,
            instances: Vec::new(),
        };
        assert(inner@.instances =~= Seq::<InstanceView<W, F>>::empty());
        inner
    }

    /// Asks every filter about a message.
    fn answers(&self, message: &RawResponse<'static>) -> (chosen: Vec<bool>)
        requires
            self@.wf(),
        ensures
            self@.may_answer(*message, chosen@),
    {
        let mut chosen: Vec<bool> = Vec::new();
        let mut i: usize = 0;
        while i < self.instances.len()
            invariant
                self@.wf(),
                chosen@.len() == i <= self.instances@.len(),
                forall|j: int|
                    0 <= j < i ==> (#[trigger] self@.instances[j]).filter.may_answer(
                        *message,
                        chosen@[j],
                    ),
            decreases self.instances@.len() - i,
        {
            assert(self@.instances[i as int].filter == self.instances@[i as int].filter);
            let answer = self.instances[i].filter.asks(message);
            chosen.push(answer);
            i = i + 1;
        }
        chosen
    }

    /// Puts a message into the queues of the streams that get it, and hands back their wakers.
    /// A stream gets the message if it is chosen; one that takes leftovers gets it if none is and
    /// the message has no ID.
    pub fn deliver(&mut self, message: ResponseStreamItem, chosen: &Vec<bool>) -> (wakers: Vec<W>)
        requires
            old(self)@.wf(),
            chosen@.len() == old(self)@.instances.len(),
        ensures
            final(self)@ == old(self)@.delivered(message, chosen@),
            final(self)@.wf(),
            wakers@ == old(self)@.woken(message, chosen@, chosen@.len()),
    {
        let ghost before = self@;
        let mut any: bool = false;
        let mut k: usize = 0;
        while k < chosen.len()
            invariant
                k <= chosen@.len(),
                any == chosen@.take(k as int).contains(true),
            decreases chosen@.len() - k,
        {
            proof {
                let shorter = chosen@.take(k as int);
                let longer = chosen@.take(k + 1);
                assert(longer =~= shorter.push(chosen@[k as int]));
                if shorter.contains(true) {
                    let w = choose|w: int| 0 <= w < shorter.len() && shorter[w] == true;
                    assert(longer[w]);
                }
                if chosen@[k as int] {
                    assert(longer[k as int]);
                }
            }
            if chosen[k] {
                any = true;
            }
            k = k + 1;
        }
        assert(chosen@.take(k as int) =~= chosen@);
        let notification = message.id().is_none();
        let mut wakers: Vec<W> = Vec::new();
        let mut i: usize = 0;
        while i < self.instances.len()
            invariant
                before == old(self)@,
                i <= self.instances@.len() == chosen@.len(),
                chosen@.len() == before.instances.len(),
                any == chosen@.contains(true),
                self@.hub == before.hub,
                self@.done == before.done,
                self@.next_id == before.next_id,
                forall|j: int|
                    0 <= j < i ==> #[trigger] self@.instances[j] == before.delivered(
                        message,
                        chosen@,
                    ).instances[j],
                forall|j: int|
                    i <= j < before.instances.len() ==> #[trigger] self@.instances[j]
                        == before.instances[j],
                wakers@ == before.woken(message, chosen@, i as nat),
                notification == (message@.id() is None),
            decreases self.instances@.len() - i,
        {
            let ghost previous = self@.instances;
            assert(previous[i as int] == self.instances@[i as int]@);
            let leftover = match self.instances[i].filter {
                Filter::Leftovers => notification && !any,
                _ => false,
            };
            if chosen[i] || leftover {
                let instance = &mut self.instances[i];
                instance.queue.push_back(message.clone());
                if let Some(waker) = instance.waker.take() {
                    wakers.push(waker);
                }
                assert(self@.instances[i as int] == previous[i as int].with_message(message));
            }
            proof {
                let now = self@.instances;
                assert forall|j: int| 0 <= j < now.len() && j != i implies now[j] == previous[j] by {
                    assert(now[j] == self.instances@[j]@);
                }
                assert(now[i as int] == before.delivered(message, chosen@).instances[i as int]);
            }
            i = i + 1;
        }
        assert(self@.instances =~= before.delivered(message, chosen@).instances);
        wakers
    }

    /// Asks every filter about a message and delivers it, and hands back the wakers of those
    /// that got it.
    pub fn broadcast(&mut self, message: ResponseStreamItem) -> (wakers: Vec<W>)
        requires
            old(self)@.wf(),
        ensures
            old(self)@.may_broadcast(message, final(self)@, wakers@),
            final(self)@.wf(),
    {
        let chosen = self.answers(&message);
        self.deliver(message, &chosen)
    }

    /// Notes that no more messages will come, and hands back the wakers of the streams that wait
    /// for one.
    pub fn finish(&mut self) -> (wakers: Vec<W>)
        ensures
            final(self)@ == old(self)@.finished(),
            wakers@ == old(self)@.all_parked(),
            old(self)@.wf() ==> final(self)@.wf(),
    {
        let ghost before = self@;
        self.done = true;
        let mut wakers: Vec<W> = Vec::new();
        let mut i: usize = 0;
        while i < self.instances.len()
            invariant
                i <= self.instances@.len() == before.instances.len(),
                self@.hub == before.hub,
                self@.done,
                self@.next_id == before.next_id,
                forall|j: int|
                    0 <= j < i ==> #[trigger] self@.instances[j] == before.finished().instances[j],
                forall|j: int|
                    i <= j < before.instances.len() ==> #[trigger] self@.instances[j]
                        == before.instances[j],
                wakers@ == before.parked(i as nat),
            decreases self.instances@.len() - i,
        {
            let ghost previous = self@.instances;
            assert(previous[i as int] == self.instances@[i as int]@);
            let instance = &mut self.instances[i];
            if let Some(waker) = instance.waker.take() {
                wakers.push(waker);
            }
            proof {
                let now = self@.instances;
                assert forall|j: int| 0 <= j < now.len() && j != i implies now[j] == previous[j] by {
                    assert(now[j] == self.instances@[j]@);
                }
                assert(now[i as int] == self.instances@[i as int]@);
            }
            i = i + 1;
        }
        assert(self@.instances =~= before.finished().instances);
        wakers
    }

    /// Whether no more messages will come.
    pub fn is_done(&self) -> (done: bool)
        ensures
            done == self@.done,
    {
        self.done
    }

    /// The number for the next stream.
    pub fn next_number(&self) -> (number: u64)
        ensures
            number == self@.next_id,
    {
        self.next_id
    }

    /// The registered streams.
    pub fn instances(&self) -> (instances: &[Instance<W, F>])
        ensures
            instances@.map_values(|i: Instance<W, F>| i@) == self@.instances,
    {
        self.instances.as_slice()
    }

    /// Whether there is a number left for another stream.
    pub fn has_room(&self) -> (room: bool)
        ensures
            room == (self@.next_id < u64::MAX),
    {
        self.next_id < u64::MAX
    }

    fn find(&self, id: u64) -> (place: Option<usize>)
        requires
            self@.wf(),
        ensures
            match place {
                Some(i) => self@.registered(id) && i == self@.place(id) && i < self.instances@.len()
                    && self.instances@[i as int].id == id,
                None => !self@.registered(id),
            },
    {
        let mut i: usize = 0;
        while i < self.instances.len()
            invariant
                self@.wf(),
                i <= self.instances@.len(),
                forall|j: int| 0 <= j < i ==> (#[trigger] self@.instances[j]).id != id,
            decreases self.instances@.len() - i,
        {
            assert(self@.instances[i as int].id == self.instances@[i as int].id);
            if self.instances[i].id == id {
                proof {
                    lemma_place(self@, i as int);
                }
                return Some(i);
            }
            i = i + 1;
        }
        None
    }

    /// "Registers" a stream to receive messages.
    fn register(&mut self, queue: VecDeque<ResponseStreamItem>, filter: Filter<F>) -> (id: u64)
        requires
            old(self)@.wf(),
            old(self)@.next_id < u64::MAX,
            filter.wf(),
        ensures
            final(self)@ == old(self)@.with_stream(queue@, filter),
            final(self)@.wf(),
            id == old(self)@.next_id,
    {
        let ghost before = self@;
        let id = self.next_id;
        self.next_id = self.next_id + 1;
        self.instances.push(Instance { id, waker: None, queue, filter });
        assert(self@.instances =~= before.with_stream(queue@, filter).instances);
        id
    }
}

/// The place of a registered stream is the one where it stands.
pub proof fn lemma_place<W, F: Fn(&RawResponse<'_>) -> bool>(inner: InnerView<W, F>, i: int)
    requires
        inner.wf(),
        0 <= i < inner.instances.len(),
    ensures
        inner.registered(inner.instances[i].id),
        inner.place(inner.instances[i].id) == i,
{
    let id = inner.instances[i].id;
    assert(inner.registered(id));
    let j = inner.place(id);
    assert(0 <= j < inner.instances.len() && inner.instances[j].id == id);
    if i < j {
        assert(inner.instances[i].id != inner.instances[j].id);
    } else if j < i {
        assert(inner.instances[j].id != inner.instances[i].id);
    }
}

fn copy_queue(queue: &VecDeque<ResponseStreamItem>) -> (copy: VecDeque<ResponseStreamItem>)
    ensures
        copy@ == queue@,
{
    let mut copy: VecDeque<ResponseStreamItem> = VecDeque::new();
    let mut i: usize = 0;
    while i < queue.len()
        invariant
            i <= queue@.len(),
            copy@ == queue@.take(i as int),
        decreases queue@.len() - i,
    {
        copy.push_back(queue[i].clone());
        assert(queue@.take(i + 1) =~= queue@.take(i as int).push(queue@[i as int]));
        i = i + 1;
    }
    assert(queue@.take(i as int) =~= queue@);
    copy
}

/// A stream of [`ResponseStreamItem`]s from the backend. This can be cloned, with
/// different streams filtering out different messages.
pub struct ResponseStream {
    hub: Ghost<int>,
    id: u64,
    queue: VecDeque<ResponseStreamItem>,
}

/// What a stream holds by itself.
pub struct StreamView {
    /// The state in which the stream is registered.
    pub hub: int,
    /// The number under which the stream is registered.
    pub id: u64,
    /// The messages that the stream has fetched and not yet emitted.
    pub queue: Seq<ResponseStreamItem>,
}

impl View for ResponseStream {
    type V = StreamView;

    closed spec fn view(&self) -> StreamView {
        StreamView { hub: self.hub@, id: self.id, queue: self.queue@ }
    }
}

impl StreamView {
    /// The messages that the stream has got and not yet emitted, in the order in which it will
    /// emit them.
    pub open spec fn waiting<W, F>(self, inner: InnerView<W, F>) -> Seq<ResponseStreamItem> {
        self.queue + inner.instance(self.id).queue
    }
}

/// What polling a stream comes to: the outcome, and what the stream and the state are then.
///
/// The stream emits from its own queue. Once that is empty it fetches all that has come for it
/// meanwhile. If there is nothing it ends where no more will come, and else leaves its waker.
pub open spec fn poll_step<W, F>(stream: StreamView, inner: InnerView<W, F>, waker: W) -> (
    Poll<Option<ResponseStreamItem>>,
    StreamView,
    InnerView<W, F>,
) {
    let instance = inner.instance(stream.id);
    if stream.queue.len() > 0 {
        (
            Poll::Ready(Some(stream.queue[0])),
            StreamView { queue: stream.queue.drop_first(), ..stream },
            inner,
        )
    } else if instance.queue.len() > 0 {
        (
            Poll::Ready(Some(instance.queue[0])),
            StreamView { queue: instance.queue.drop_first(), ..stream },
            inner.with_instance(stream.id, InstanceView { queue: seq![], ..instance }),
        )
    } else if inner.done {
        (Poll::Ready(None), stream, inner)
    } else {
        (
            Poll::Pending,
            stream,
            inner.with_instance(stream.id, InstanceView { waker: Some(waker), ..instance }),
        )
    }
}

impl ResponseStream {
    /// Emit the next message: the first of those that are waiting, which then are one less. If
    /// none is, the stream ends where no more will come; else the waker is kept, to be handed
    /// back with the next message that the stream gets.
    pub fn poll_next<W, F: Fn(&RawResponse<'_>) -> bool>(
        &mut self,
        inner: &mut ResponseStreamInner<W, F>,
        waker: W,
    ) -> (polled: Poll<Option<ResponseStreamItem>>)
        requires
            old(inner)@.wf(),
            old(inner)@.hub == old(self)@.hub,
            old(inner)@.registered(old(self)@.id),
        ensures
            final(inner)@.wf(),
            final(self)@.id == old(self)@.id,
            final(inner)@.registered(final(self)@.id),
            (polled, final(self)@, final(inner)@) == poll_step(old(self)@, old(inner)@, waker),
    {
        // First, if there are items on our own queue, just take and return from them:
        if let Some(item) = self.queue.pop_front() {
            return Poll::Ready(Some(item));
        }
        let ghost before = inner@;
        let i = match inner.find(self.id) {
            Some(i) => i,
            None => vstd::pervasive::unreached(),
        };
        assert(before.instances[i as int] == inner.instances@[i as int]@);
        // Next, if there are items in the shared queue then put those into
        // our local queue and return from them.
        if inner.instances[i].queue.len() != 0 {
            assert(self.queue@ =~= Seq::<ResponseStreamItem>::empty());
            let instance = &mut inner.instances[i];
            std::mem::swap(&mut instance.queue, &mut self.queue);
            proof {
                let changed = InstanceView { queue: seq![], ..before.instances[i as int] };
                lemma_replaced(*inner, before, i as int, changed);
            }
            match self.queue.pop_front() {
                Some(item) => Poll::Ready(Some(item)),
                None => vstd::pervasive::unreached(),
            }
        } else if inner.done {
            // If we're done, then stop after draining any messages.
            Poll::Ready(None)
        } else {
            // Else save our waker and return pending.
            let instance = &mut inner.instances[i];
            instance.waker = Some(waker);
            proof {
                let changed = InstanceView { waker: Some(waker), ..before.instances[i as int] };
                lemma_replaced(*inner, before, i as int, changed);
            }
            Poll::Pending
        }
    }

    /// Cloning a stream creates a new stream which will receive
    /// identical messages to this one.
    pub fn clone<W, F: Fn(&RawResponse<'_>) -> bool>(
        &self,
        inner: &mut ResponseStreamInner<W, F>,
    ) -> (stream: ResponseStream)
        requires
            old(inner)@.wf(),
            old(inner)@.hub == self@.hub,
            old(inner)@.registered(self@.id),
            old(inner)@.next_id < u64::MAX,
        ensures
            final(inner)@ == old(inner)@.with_stream(
                old(inner)@.instance(self@.id).queue,
                old(inner)@.instance(self@.id).filter,
            ),
            final(inner)@.wf(),
            stream@ == (StreamView { hub: self@.hub, id: old(inner)@.next_id, queue: self@.queue }),
            final(inner)@.registered(stream@.id),
    {
        let i = match inner.find(self.id) {
            Some(i) => i,
            None => vstd::pervasive::unreached(),
        };
        assert(inner@.instances[i as int] == inner.instances@[i as int]@);
        assert(inner@.instances[i as int].filter.wf());
        let queue = copy_queue(&inner.instances[i].queue);
        let filter = inner.instances[i].filter.duplicate();
        let id = inner.register(queue, filter);
        assert(inner@.instances[inner@.instances.len() - 1].id == id);
        ResponseStream { hub: self.hub, id, queue: copy_queue(&self.queue) }
    }

    /// De-register this instance.
    pub fn close<W, F: Fn(&RawResponse<'_>) -> bool>(self, inner: &mut ResponseStreamInner<W, F>)
        requires
            old(inner)@.wf(),
            old(inner)@.hub == self@.hub,
        ensures
            final(inner)@.wf(),
            final(inner)@ == (if old(inner)@.registered(self@.id) {
                old(inner)@.without(self@.id)
            } else {
                old(inner)@
            }),
            !final(inner)@.registered(self@.id),
    {
        let ghost before = inner@;
        if let Some(i) = inner.find(self.id) {
            inner.instances.remove(i);
            proof {
                let after = before.without(self@.id);
                assert(inner@.instances =~= after.instances);
                assert forall|j: int| 0 <= j < after.instances.len() implies (
                #[trigger] after.instances[j]).id != self@.id by {
                    if j < i {
                        assert(after.instances[j] == before.instances[j]);
                        assert(before.instances[j].id != before.instances[i as int].id);
                    } else {
                        assert(after.instances[j] == before.instances[j + 1]);
                        assert(before.instances[i as int].id != before.instances[j + 1].id);
                    }
                }
            }
        }
    }
}

proof fn lemma_replaced<W, F: Fn(&RawResponse<'_>) -> bool>(
    inner: ResponseStreamInner<W, F>,
    before: InnerView<W, F>,
    i: int,
    changed: InstanceView<W, F>,
)
    requires
        before.wf(),
        0 <= i < before.instances.len(),
        inner@.instances.len() == before.instances.len(),
        inner@.hub == before.hub,
        inner@.done == before.done,
        inner@.next_id == before.next_id,
        forall|j: int|
            0 <= j < before.instances.len() && j != i ==> inner.instances@[j]@ == #[trigger] before.instances[j],
        inner.instances@[i]@ == changed,
        changed.id == before.instances[i].id,
        changed.filter == before.instances[i].filter,
    ensures
        inner@ == before.with_instance(changed.id, changed),
        inner@.wf(),
        inner@.registered(changed.id),
        inner@.instance(changed.id) == changed,
{
    lemma_place(before, i);
    assert(inner@.instances =~= before.with_instance(changed.id, changed).instances);
    lemma_place(inner@, i);
}

/// An error returned by [`ResponseStreamMaster`] if something
/// goes wrong attempting to receive/parse a message.
#[derive(Debug)]
pub enum ResponseStreamError<E> {
    /// The backend failed.
    BackendError(E),
    /// A message could not be decoded.
    Response(ResponseError),
}

impl<E> ResponseStreamError<E> {
    /// Is the error fatal, ie the client will no longer work.
    pub fn is_fatal(&self) -> (fatal: bool)
        ensures
            fatal == (self is BackendError),
    {
        matches!(self, ResponseStreamError::BackendError(_))
    }
}

/// A handle to create response streams with.
#[derive(Clone, Copy)]
pub struct ResponseStreamHandle {
    hub: Ghost<int>,
}

impl ResponseStreamHandle {
    /// The state in which the streams are registered.
    pub closed spec fn hub(self) -> int {
        self.hub@
    }

    /// Create a [`ResponseStream`] that takes every message.
    pub fn response_stream<W, F: Fn(&RawResponse<'_>) -> bool>(
        &self,
        inner: &mut ResponseStreamInner<W, F>,
    ) -> (stream: ResponseStream)
        requires
            old(inner)@.wf(),
            old(inner)@.hub == self.hub(),
            old(inner)@.next_id < u64::MAX,
        ensures
            final(inner)@ == old(inner)@.with_stream(seq![], Filter::Everything),
            final(inner)@.wf(),
            stream@ == (StreamView { hub: self.hub(), id: old(inner)@.next_id, queue: seq![] }),
            final(inner)@.registered(stream@.id),
    {
        create_response_stream(inner, Filter::Everything)
    }

    /// Create a [`ResponseStream`] that takes the messages without an ID that no other stream takes.
    pub fn leftovers<W, F: Fn(&RawResponse<'_>) -> bool>(
        &self,
        inner: &mut ResponseStreamInner<W, F>,
    ) -> (stream: ResponseStream)
        requires
            old(inner)@.wf(),
            old(inner)@.hub == self.hub(),
            old(inner)@.next_id < u64::MAX,
        ensures
            final(inner)@ == old(inner)@.with_stream(seq![], Filter::Leftovers),
            final(inner)@.wf(),
            stream@ == (StreamView { hub: self.hub(), id: old(inner)@.next_id, queue: seq![] }),
            final(inner)@.registered(stream@.id),
    {
        create_response_stream(inner, Filter::Leftovers)
    }

    /// Create a [`ResponseStream`] that takes the messages that pass a filter.
    pub fn with_filter<W, F: Fn(&RawResponse<'_>) -> bool>(
        &self,
        inner: &mut ResponseStreamInner<W, F>,
        filter: Filter<F>,
    ) -> (stream: ResponseStream)
        requires
            old(inner)@.wf(),
            old(inner)@.hub == self.hub(),
            old(inner)@.next_id < u64::MAX,
            filter.wf(),
        ensures
            final(inner)@ == old(inner)@.with_stream(seq![], filter),
            final(inner)@.wf(),
            stream@ == (StreamView { hub: self.hub(), id: old(inner)@.next_id, queue: seq![] }),
            final(inner)@.registered(stream@.id),
    {
        create_response_stream(inner, filter)
    }
}

/// Create a [`ResponseStream`] given the shared `inner` content.
fn create_response_stream<W, F: Fn(&RawResponse<'_>) -> bool>(
    inner: &mut ResponseStreamInner<W, F>,
    filter: Filter<F>,
) -> (stream: ResponseStream)
    requires
        old(inner)@.wf(),
        old(inner)@.next_id < u64::MAX,
        filter.wf(),
    ensures
        final(inner)@ == old(inner)@.with_stream(seq![], filter),
        final(inner)@.wf(),
        stream@ == (StreamView { hub: old(inner)@.hub, id: old(inner)@.next_id, queue: seq![] }),
        final(inner)@.registered(stream@.id),
{
    let queue: VecDeque<ResponseStreamItem> = VecDeque::new();
    let id = inner.register(queue, filter);
    assert(inner@.instances[inner@.instances.len() - 1].id == id);
    let stream = ResponseStream { hub: inner.hub, id, queue: VecDeque::new() };
    assert(stream@.queue =~= seq![]);
    stream
}

/// What the master waits for next.
pub enum NextMessage<Receiving> {
    /// Nothing: it has finished.
    Finished,
    /// This message.
    Message(Receiving),
}

/// This needs to be polled to drive the [`ResponseStream`]s.
pub struct ResponseStreamMaster<R: BackendReceiver> {
    hub: Ghost<int>,
    done: bool,
    // This is where messages from the backend come from.
    recv: R,
    // The message from the backend that we are waiting for.
    recv_fut: Option<R::Receiving>,
}

impl<R: BackendReceiver> ResponseStreamMaster<R> {
    /// The state that its streams share.
    pub closed spec fn hub(self) -> int {
        self.hub@
    }

    /// It has finished.
    pub closed spec fn done(self) -> bool {
        self.done
    }

    /// Where messages come from.
    pub closed spec fn receiver(self) -> R {
        self.recv
    }

    /// The message that has been asked for and has not come yet.
    pub closed spec fn receiving(self) -> Option<R::Receiving> {
        self.recv_fut
    }

    /// Whether the next message to wait for may be `fut`: the one that has been asked for, or
    /// else whatever the receiver hands out.
    pub open spec fn waits_for(self, fut: R::Receiving) -> bool {
        match self.receiving() {
            Some(asked) => fut == asked,
            None => call_ensures(R::receive, (&self.receiver(),), fut),
        }
    }

    /// Create a new [`ResponseStreamMaster`], and the state that its streams share.
    pub fn new<W, F: Fn(&RawResponse<'_>) -> bool>(recv: R) -> (r: (
        Self,
        ResponseStreamInner<W, F>,
    ))
        ensures
            r.0.hub() == r.1@.hub,
            !r.0.done(),
            r.0.receiver() == recv,
            r.0.receiving() is None,
            r.1@.wf(),
            !r.1@.done,
            r.1@.next_id == 1,
            r.1@.instances == Seq::<InstanceView<W, F>>::empty(),
    {
        let inner = ResponseStreamInner::new();
        let master = ResponseStreamMaster { hub: inner.hub, done: false, recv, recv_fut: None };
        (master, inner)
    }

    /// Create a handle to use to build response streams, in the state that those of the master
    /// share.
    pub fn handle(&self) -> (handle: ResponseStreamHandle)
        ensures
            handle.hub() == self.hub(),
    {
        ResponseStreamHandle { hub: self.hub }
    }

    /// Get the next message to wait for: the one that has been asked for already, or else
    /// another one.
    pub fn next_message(&mut self) -> (next: NextMessage<R::Receiving>)
        ensures
            final(self).done() == old(self).done(),
            final(self).hub() == old(self).hub(),
            final(self).receiver() == old(self).receiver(),
            if old(self).done() {
                next is Finished && final(self).receiving() == old(self).receiving()
            } else {
                &&& final(self).receiving() is None
                &&& next matches NextMessage::Message(fut) && old(self).waits_for(fut)
            },
    {
        if self.done {
            // This has already finished.
            return NextMessage::Finished;
        }
        match self.recv_fut.take() {
            Some(fut) => NextMessage::Message(fut),
            None => NextMessage::Message(self.recv.receive()),
        }
    }

    /// Put a message back that has not come yet, so that it is waited for next time.
    pub fn not_ready(&mut self, fut: R::Receiving)
        ensures
            final(self).done() == old(self).done(),
            final(self).hub() == old(self).hub(),
            final(self).receiver() == old(self).receiver(),
            final(self).receiving() == Some(fut),
    {
        self.recv_fut = Some(fut);
    }

    /// Handle what came of waiting for a message. A message is broadcast; one that cannot be
    /// decoded is handed back as an error, and more can follow. A backend error, or the end of
    /// the connection, ends this and all streams. Handed back with the outcome are the wakers
    /// of the streams that got the message, or of all that waited where this ends. Of a message
    /// that cannot be deserialized `explain` says what error that is.
    pub fn received<
        W,
        E,
        F: Fn(&RawResponse<'_>) -> bool,
        X: FnOnce(&[u8]) -> serde_json::Error,
    >(
        &mut self,
        inner: &mut ResponseStreamInner<W, F>,
        res: Option<Result<Vec<u8>, E>>,
        explain: X,
    ) -> (r: (Option<Result<ResponseStreamItem, ResponseStreamError<E>>>, Vec<W>))
        requires
            old(inner)@.wf(),
            old(inner)@.hub == old(self).hub(),
            forall|b: &[u8]| #[trigger] call_requires(explain, (b,)),
        ensures
            final(inner)@.wf(),
            final(self).hub() == old(self).hub(),
            final(self).receiver() == old(self).receiver(),
            final(self).receiving() == old(self).receiving(),
            match res {
                None => {
                    &&& r.0 is None
                    &&& final(self).done()
                    &&& final(inner)@ == old(inner)@.finished()
                    &&& r.1@ == old(inner)@.all_parked()
                },
                Some(Err(error)) => {
                    &&& r.0 == Some(
                        Err::<ResponseStreamItem, ResponseStreamError<E>>(
                            ResponseStreamError::BackendError(error),
                        ),
                    )
                    &&& final(self).done()
                    &&& final(inner)@ == old(inner)@.finished()
                    &&& r.1@ == old(inner)@.all_parked()
                },
                Some(Ok(bytes)) => {
                    &&& final(self).done() == old(self).done()
                    &&& received_message(bytes@, explain, r.0, old(inner)@, final(inner)@, r.1@)
                },
            },
    {
        // Get the message out of the result. If a backend error or None comes
        // back, we close any streams.
        let bytes = match res {
            None => {
                // Tell this to stop:
                self.done = true;
                // Tell streams to stop:
                return (None, inner.finish());
            },
            Some(Err(error)) => {
                // Tell this to stop:
                self.done = true;
                // Tell streams to stop:
                let wakers = inner.finish();
                return (Some(Err(ResponseStreamError::BackendError(error))), wakers);
            },
            Some(Ok(bytes)) => bytes,
        };
        // Deserialize the message. An error here is recoverable and won't stop everything.
        let response = match RawResponse::from_bytes(bytes.as_slice(), explain) {
            Ok(response) => response.into_owned(),
            Err(error) => {
                return (Some(Err(ResponseStreamError::Response(error))), Vec::new());
            },
        };
        let item = Arc::new(response);
        let wakers = inner.broadcast(item.clone());
        // We've successfully handled a message; allow the caller to react.
        (Some(Ok(item)), wakers)
    }

    /// Receive the next message, where `poll` hands back what came of waiting for it, or the
    /// message itself where it has not come yet. Nothing is waited for once this has finished,
    /// which it has just when it said so or handed back a fatal error.
    pub fn poll_next<
        W,
        E,
        F: Fn(&RawResponse<'_>) -> bool,
        P: FnOnce(R::Receiving) -> Result<Option<Result<Vec<u8>, E>>, R::Receiving>,
        X: FnOnce(&[u8]) -> serde_json::Error,
    >(&mut self, inner: &mut ResponseStreamInner<W, F>, poll: P, explain: X) -> (r: (
        Poll<Option<Result<ResponseStreamItem, ResponseStreamError<E>>>>,
        Vec<W>,
    ))
        requires
            old(inner)@.wf(),
            old(inner)@.hub == old(self).hub(),
            forall|fut: R::Receiving| #[trigger] call_requires(poll, (fut,)),
            forall|b: &[u8]| #[trigger] call_requires(explain, (b,)),
        ensures
            final(inner)@.wf(),
            final(self).hub() == old(self).hub(),
            final(self).receiver() == old(self).receiver(),
            final(self).done() == ends(r.0),
            if old(self).done() {
                &&& r.0 == Poll::Ready(None::<Result<ResponseStreamItem, ResponseStreamError<E>>>)
                &&& r.1@ == Seq::<W>::empty()
                &&& final(self).receiving() == old(self).receiving()
                &&& final(inner)@ == old(inner)@
            } else {
                exists|fut: R::Receiving, res: Result<Option<Result<Vec<u8>, E>>, R::Receiving>|
                    #[trigger] call_ensures(poll, (fut,), res) && old(self).waits_for(fut)
                        && polled_message(
                        res,
                        explain,
                        r.0,
                        final(self).receiving(),
                        old(inner)@,
                        final(inner)@,
                        r.1@,
                    )
            },
    {
        let fut = match self.next_message() {
            NextMessage::Finished => {
                return (Poll::Ready(None), Vec::new());
            },
            NextMessage::Message(fut) => fut,
        };
        let res = poll(fut);
        let ghost polled = res;
        assert(call_ensures(poll, (fut,), polled));
        match res {
            Err(waiting) => {
                self.not_ready(waiting);
                (Poll::Pending, Vec::new())
            },
            Ok(res) => {
                let (item, wakers) = self.received(inner, res, explain);
                (Poll::Ready(item), wakers)
            },
        }
    }

    /// If we drop the master, everything else is done. Handed back are the wakers of the streams
    /// that waited.
    pub fn close<W, F: Fn(&RawResponse<'_>) -> bool>(
        self,
        inner: &mut ResponseStreamInner<W, F>,
    ) -> (wakers: Vec<W>)
        requires
            old(inner)@.hub == self.hub(),
        ensures
            final(inner)@ == old(inner)@.finished(),
            wakers@ == old(inner)@.all_parked(),
            old(inner)@.wf() ==> final(inner)@.wf(),
    {
        inner.finish()
    }
}

/// Whether an outcome of polling is the last one: the end, or a fatal error.
pub open spec fn ends<T, E>(polled: Poll<Option<Result<T, ResponseStreamError<E>>>>) -> bool {
    match polled {
        Poll::Ready(None) => true,
        Poll::Ready(Some(Err(ResponseStreamError::BackendError(_)))) => true,
        _ => false,
    }
}

/// What polling comes to once it is known what came of waiting for a message: the outcome, the
/// message that is still waited for, and the streams before and after it, with those that are
/// woken.
pub open spec fn polled_message<
    Receiving,
    W,
    E,
    F: Fn(&RawResponse<'_>) -> bool,
    X: FnOnce(&[u8]) -> serde_json::Error,
>(
    res: Result<Option<Result<Vec<u8>, E>>, Receiving>,
    explain: X,
    polled: Poll<Option<Result<ResponseStreamItem, ResponseStreamError<E>>>>,
    receiving: Option<Receiving>,
    before: InnerView<W, F>,
    after: InnerView<W, F>,
    wakers: Seq<W>,
) -> bool {
    match res {
        Err(waiting) => {
            &&& polled is Pending
            &&& receiving == Some(waiting)
            &&& after == before
            &&& wakers == Seq::<W>::empty()
        },
        Ok(None) => {
            &&& polled == Poll::Ready(None::<Result<ResponseStreamItem, ResponseStreamError<E>>>)
            &&& receiving is None
            &&& after == before.finished()
            &&& wakers == before.all_parked()
        },
        Ok(Some(Err(error))) => {
            &&& polled == Poll::Ready(
                Some(
                    Err::<ResponseStreamItem, ResponseStreamError<E>>(
                        ResponseStreamError::BackendError(error),
                    ),
                ),
            )
            &&& receiving is None
            &&& after == before.finished()
            &&& wakers == before.all_parked()
        },
        Ok(Some(Ok(bytes))) => {
            &&& polled matches Poll::Ready(outcome) && received_message(
                bytes@,
                explain,
                outcome,
                before,
                after,
                wakers,
            )
            &&& receiving is None
        },
    }
}

/// What receiving the bytes of a message comes to: the outcome, and the streams before and
/// after it, with those that are woken.
pub open spec fn received_message<
    W,
    E,
    F: Fn(&RawResponse<'_>) -> bool,
    X: FnOnce(&[u8]) -> serde_json::Error,
>(
    bytes: Seq<u8>,
    explain: X,
    outcome: Option<Result<ResponseStreamItem, ResponseStreamError<E>>>,
    before: InnerView<W, F>,
    after: InnerView<W, F>,
    wakers: Seq<W>,
) -> bool {
    match outcome {
        Some(Ok(item)) => {
            &&& decoded(bytes) == Some(item@)
            &&& item@.version() == "2.0"@
            &&& before.may_broadcast(item, after, wakers)
        },
        Some(Err(ResponseStreamError::Response(error))) => {
            &&& after == before
            &&& wakers == Seq::<W>::empty()
            &&& match error {
                ResponseError::Deserialize { error: said, bytes: copy } => {
                    &&& decoded(bytes) is None
                    &&& may_explain(explain, bytes, said)
                    &&& copy@ == bytes
                },
                ResponseError::InvalidVersion { bytes: copy } => {
                    &&& decoded(bytes) is Some
                    &&& decoded(bytes)->0.version() != "2.0"@
                    &&& copy@ == bytes
                },
            }
        },
        _ => false,
    }
}

} // verus!
