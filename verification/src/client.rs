//! The client.
use crate::backend::mock::request_decoded;
use crate::backend::{BackendReceiver, BackendSender};
use crate::json::{quoted, RawJson};
use crate::layout::{document, PartsView};
use crate::params::{params_bytes, IntoRpcParams, RpcParams};
use crate::raw_response::{decoded, may_explain, RawResponse, ResponseError};
use crate::response::Response;
use crate::response_stream::{
    ends, poll_step, polled_message, received_message, Filter, InnerView, InstanceView, NextMessage,
    Poll, ResponseStream, ResponseStreamError, ResponseStreamHandle, ResponseStreamInner,
    ResponseStreamItem, ResponseStreamMaster, StreamView,
};
use crate::text::{decimal, decimal_text};
use crate::wire::{
    are_members_of, notification_is_laid_out, notification_is_read_back, request_is_laid_out,
    request_is_read_back, told,
};
use std::sync::Arc;
use vstd::prelude::*;
use vstd::slice::slice_to_vec;
use vstd::utf8::encode_utf8;

verus! {

/// An error handed back from [`Client::request()`].
#[derive(Debug)]
#[non_exhaustive]
pub enum RequestError<E> {
    /// An error from the backend implementation that was emitted when
    /// attempting to send the request.
    Backend(E),
    /// The connection was closed before a response was delivered.
    ConnectionClosed,
}

/// The end of a message, from its method on.
pub open spec fn call_bytes(method: Seq<char>, params: Option<Seq<u8>>) -> Seq<u8> {
    let named = encode_utf8("\"method\":"@) + encode_utf8(quoted(method));
    match params {
        Some(params) => named + encode_utf8(",\"params\":"@) + params + encode_utf8("}"@),
        None => named + encode_utf8("}"@),
    }
}

/// The bytes of a request.
pub open spec fn request_bytes(
    id: Seq<char>,
    method: Seq<char>,
    params: Option<Seq<u8>>,
) -> Seq<u8> {
    encode_utf8("{\"jsonrpc\":\"2.0\",\"id\":\""@) + encode_utf8(id) + encode_utf8("\","@)
        + call_bytes(method, params)
}

/// The bytes of a notification.
pub open spec fn notification_bytes(method: Seq<char>, params: Option<Seq<u8>>) -> Seq<u8> {
    encode_utf8("{\"jsonrpc\":\"2.0\","@) + call_bytes(method, params)
}

fn push_text(bytes: &mut Vec<u8>, text: &str)
    ensures
        final(bytes)@ == old(bytes)@ + encode_utf8(text@),
{
    let mut more = slice_to_vec(text.as_bytes());
    bytes.append(&mut more);
}

fn push_call(bytes: &mut Vec<u8>, method: &str, params: &RpcParams)
    ensures
        final(bytes)@ == old(bytes)@ + call_bytes(method@, params_bytes(*params)),
{
    let ghost before = bytes@;
    push_text(bytes, "\"method\":");
    push_text(bytes, RawJson::string(method).get());
    if let Some(json) = params {
        push_text(bytes, ",\"params\":");
        push_text(bytes, json.get());
    }
    push_text(bytes, "}");
    assert(bytes@ =~= before + call_bytes(method@, params_bytes(*params)));
}

/// A JSON-RPC client. Build this by calling [`Client::from_backend()`]
/// and providing a suitable sender and receiver.
pub struct Client<S: BackendSender> {
    next_id: u64,
    sender: S,
    stream: ResponseStreamHandle,
}

/// A request, and the stream on which its response will come.
pub struct PendingRequest {
    message: Vec<u8>,
    stream: ResponseStream,
}

impl PendingRequest {
    /// The bytes of the request.
    pub closed spec fn message(self) -> Seq<u8> {
        self.message@
    }

    /// The stream on which the response will come.
    pub closed spec fn stream(self) -> StreamView {
        self.stream@
    }

    /// The bytes of the request.
    pub fn message_bytes(&self) -> (bytes: &[u8])
        ensures
            bytes@ == self.message(),
    {
        self.message.as_slice()
    }

    /// Handle what came of sending the request. Where it could not be sent, its response is not
    /// waited for.
    pub fn sent<W, E, F: Fn(&RawResponse<'_>) -> bool>(
        self,
        inner: &mut ResponseStreamInner<W, F>,
        outcome: Result<(), E>,
    ) -> (r: Result<PendingRequest, RequestError<E>>)
        requires
            old(inner)@.wf(),
            old(inner)@.hub == self.stream().hub,
            old(inner)@.registered(self.stream().id),
        ensures
            final(inner)@.wf(),
            match outcome {
                Ok(_) => r == Ok::<PendingRequest, RequestError<E>>(self) && final(inner)@ == old(
                    inner,
                )@,
                Err(error) => {
                    &&& r == Err::<PendingRequest, RequestError<E>>(RequestError::Backend(error))
                    &&& final(inner)@ == old(inner)@.without(self.stream().id)
                },
            },
    {
        match outcome {
            Ok(_) => Ok(self),
            Err(error) => {
                self.stream.close(inner);
                Err(RequestError::Backend(error))
            },
        }
    }

    /// Get the response, or the error if none will come. If there is none yet, the waker is
    /// kept, to be handed back when the response comes.
    pub fn poll<W, E, F: Fn(&RawResponse<'_>) -> bool>(
        &mut self,
        inner: &mut ResponseStreamInner<W, F>,
        waker: W,
    ) -> (polled: Poll<Result<Response, RequestError<E>>>)
        requires
            old(inner)@.wf(),
            old(inner)@.hub == old(self).stream().hub,
            old(inner)@.registered(old(self).stream().id),
        ensures
            final(inner)@.wf(),
            final(self).message() == old(self).message(),
            final(self).stream().id == old(self).stream().id,
            final(inner)@.registered(final(self).stream().id),
            ({
                let (emitted, stream, after) = poll_step(old(self).stream(), old(inner)@, waker);
                &&& final(self).stream() == stream
                &&& final(inner)@ == after
                &&& match emitted {
                    Poll::Ready(Some(item)) => polled matches Poll::Ready(Ok(response))
                        && response@ == item@,
                    Poll::Ready(None) => polled matches Poll::Ready(
                        Err(RequestError::ConnectionClosed),
                    ),
                    Poll::Pending => polled is Pending,
                }
            }),
    {
        match self.stream.poll_next(inner, waker) {
            Poll::Ready(Some(item)) => Poll::Ready(Ok(Response::new(item))),
            Poll::Ready(None) => Poll::Ready(Err(RequestError::ConnectionClosed)),
            Poll::Pending => Poll::Pending,
        }
    }

    /// Stop waiting for the response.
    pub fn close<W, F: Fn(&RawResponse<'_>) -> bool>(self, inner: &mut ResponseStreamInner<W, F>)
        requires
            old(inner)@.wf(),
            old(inner)@.hub == self.stream().hub,
            old(inner)@.registered(self.stream().id),
        ensures
            final(inner)@.wf(),
            final(inner)@ == old(inner)@.without(self.stream().id),
            !final(inner)@.registered(self.stream().id),
    {
        self.stream.close(inner);
    }
}

impl<S: BackendSender> Client<S> {
    /// The state that the streams of the client share.
    pub closed spec fn hub(self) -> int {
        self.stream.hub()
    }

    /// The number that becomes the ID of the next request.
    pub closed spec fn next_id(self) -> u64 {
        self.next_id
    }

    /// Where messages are sent.
    pub closed spec fn sender(self) -> S {
        self.sender
    }

    /// Construct a client/driver from a [`BackendSender`] and [`BackendReceiver`], with the state
    /// that they share. The [`ClientDriver`] handed back needs polling in order to drive the
    /// message receiving.
    pub fn from_backend<R: BackendReceiver, W, F: Fn(&RawResponse<'_>) -> bool>(
        send: S,
        recv: R,
    ) -> (r: (Client<S>, ClientDriver<R>, ResponseStreamInner<W, F>))
        ensures
            r.0.hub() == r.2@.hub,
            r.1.hub() == r.2@.hub,
            r.0.next_id() == 1,
            r.0.sender() == send,
            !r.1.done(),
            r.1.receiver() == recv,
            r.1.receiving() is None,
            r.2@.wf(),
            !r.2@.done,
            r.2@.next_id == 1,
            r.2@.instances == Seq::<InstanceView<W, F>>::empty(),
    {
        let (master, inner) = ResponseStreamMaster::new(recv);
        let client = Client { next_id: 1, sender: send, stream: master.handle() };
        (client, ClientDriver(master), inner)
    }

    /// Build a request, and subscribe to responses with its ID.
    pub fn prepare_request<Params: IntoRpcParams, W, F: Fn(&RawResponse<'_>) -> bool>(
        &mut self,
        inner: &mut ResponseStreamInner<W, F>,
        method: &str,
        params: Params,
    ) -> (pending: PendingRequest)
        requires
            old(inner)@.wf(),
            old(inner)@.hub == old(self).hub(),
            old(inner)@.next_id < u64::MAX,
            params.complete(),
        ensures
            final(self).hub() == old(self).hub(),
            final(self).next_id() == (old(self).next_id() + 1) % 0x1_0000_0000_0000_0000,
            final(self).sender() == old(self).sender(),
            pending.message() == request_bytes(
                decimal(old(self).next_id() as nat),
                method@,
                params.rpc_bytes(),
            ),
            request_decoded(pending.message()) == Some(
                told(Some(decimal(old(self).next_id() as nat)), method@, params.rpc_bytes()),
            ),
            document(pending.message()) matches Some(PartsView::Members(members))
                && are_members_of(
                members,
                Some(decimal(old(self).next_id() as nat)),
                method@,
                params.rpc_bytes(),
            ),
            pending.stream() == (StreamView {
                hub: old(self).hub(),
                id: old(inner)@.next_id,
                queue: seq![],
            }),
            waits_for_reply(old(inner)@, final(inner)@, decimal(old(self).next_id() as nat)),
            final(inner)@.wf(),
            final(inner)@.registered(pending.stream().id),
    {
        let id = decimal_text(self.next_id);
        self.next_id = self.next_id.wrapping_add(1);
        let params = params.into_rpc_params();
        let mut message: Vec<u8> = Vec::new();
        push_text(&mut message, "{\"jsonrpc\":\"2.0\",\"id\":\"");
        push_text(&mut message, id.as_str());
        push_text(&mut message, "\",");
        push_call(&mut message, method, &params);
        assert(message@ =~= request_bytes(id@, method@, params_bytes(params)));
        if let Some(json) = &params {
            proof {
                use_type_invariant(json);
            }
        }
        proof {
            request_is_read_back(old(self).next_id as nat, method@, params);
            request_is_laid_out(old(self).next_id as nat, method@, params);
        }
        // Subscribe to responses with the matching ID.
        let ghost before = inner@;
        let filter: Filter<F> = Filter::Reply(id);
        let stream = self.stream.with_filter(inner, filter);
        assert(inner@ == before.with_stream(seq![], Filter::Reply(id)));
        PendingRequest { message, stream }
    }

    /// Send a request.
    pub fn send_request(&self, pending: &PendingRequest) -> (sending: S::Sending)
        ensures
            sends(self.sender(), pending.message(), sending),
    {
        self.sender.send(pending.message.as_slice())
    }

    /// Make a request to the RPC server: subscribe to the response, and then send the request.
    /// What comes of sending it goes to [`PendingRequest::sent()`], and the response comes from
    /// [`PendingRequest::poll()`].
    pub fn request<Params: IntoRpcParams, W, F: Fn(&RawResponse<'_>) -> bool>(
        &mut self,
        inner: &mut ResponseStreamInner<W, F>,
        method: &str,
        params: Params,
    ) -> (r: (S::Sending, PendingRequest))
        requires
            old(inner)@.wf(),
            old(inner)@.hub == old(self).hub(),
            old(inner)@.next_id < u64::MAX,
            params.complete(),
        ensures
            final(self).hub() == old(self).hub(),
            final(self).next_id() == (old(self).next_id() + 1) % 0x1_0000_0000_0000_0000,
            final(self).sender() == old(self).sender(),
            r.1.message() == request_bytes(
                decimal(old(self).next_id() as nat),
                method@,
                params.rpc_bytes(),
            ),
            request_decoded(r.1.message()) == Some(
                told(Some(decimal(old(self).next_id() as nat)), method@, params.rpc_bytes()),
            ),
            document(r.1.message()) matches Some(PartsView::Members(members)) && are_members_of(
                members,
                Some(decimal(old(self).next_id() as nat)),
                method@,
                params.rpc_bytes(),
            ),
            r.1.stream() == (StreamView {
                hub: old(self).hub(),
                id: old(inner)@.next_id,
                queue: seq![],
            }),
            waits_for_reply(old(inner)@, final(inner)@, decimal(old(self).next_id() as nat)),
            final(inner)@.wf(),
            final(inner)@.registered(r.1.stream().id),
            sends(old(self).sender(), r.1.message(), r.0),
    {
        let pending = self.prepare_request(inner, method, params);
        // Now we're set up to wait for the reply, send the request.
        let sending = self.send_request(&pending);
        (sending, pending)
    }

    /// Send a notification to the RPC server. There will be no response.
    pub fn notification<Params: IntoRpcParams>(&mut self, method: &str, params: Params) -> (sending:
        S::Sending)
        requires
            params.complete(),
        ensures
            *final(self) == *old(self),
            sends(old(self).sender(), notification_bytes(method@, params.rpc_bytes()), sending),
            request_decoded(notification_bytes(method@, params.rpc_bytes())) == Some(
                told(None, method@, params.rpc_bytes()),
            ),
            document(notification_bytes(method@, params.rpc_bytes())) matches Some(
                PartsView::Members(members),
            ) && are_members_of(members, None, method@, params.rpc_bytes()),
    {
        let params = params.into_rpc_params();
        let mut message: Vec<u8> = Vec::new();
        push_text(&mut message, "{\"jsonrpc\":\"2.0\",");
        push_call(&mut message, method, &params);
        assert(message@ =~= notification_bytes(method@, params_bytes(params)));
        if let Some(json) = &params {
            proof {
                use_type_invariant(json);
            }
        }
        proof {
            notification_is_read_back(method@, params);
            notification_is_laid_out(method@, params);
        }
        // Send the message. No need to wait for any response.
        self.sender.send(message.as_slice())
    }

    /// The number that becomes the ID of the next request.
    pub fn next_number(&self) -> (number: u64)
        ensures
            number == self.next_id(),
    {
        self.next_id
    }

    /// Obtain streams of server notifications from the backend that aren't linked to
    /// any specific request. They are registered in the state that the streams of the client
    /// share.
    pub fn server_notifications(&self) -> (notifications: ServerNotifications)
        ensures
            notifications.hub() == self.hub(),
    {
        ServerNotifications(self.stream)
    }
}

/// Whether handing these bytes to a sender may come to `sending`.
pub open spec fn sends<S: BackendSender>(sender: S, bytes: Seq<u8>, sending: S::Sending) -> bool {
    exists|data: &[u8]| data@ == bytes && #[trigger] call_ensures(S::send, (&sender, data), sending)
}

/// Whether `after` is `before` with a stream that waits for the responses with an ID.
pub open spec fn waits_for_reply<W, F>(
    before: InnerView<W, F>,
    after: InnerView<W, F>,
    id: Seq<char>,
) -> bool {
    let filter = after.instances.last().filter;
    &&& filter matches Filter::Reply(text) && text@ == id
    &&& after == before.with_stream(seq![], filter)
}

/// This must be polled in order to accept messages from the server.
/// Nothing will happen unless it is. This design allows us to apply backpressure
/// (by polling this less often), and allows us to drive multiple notification streams
/// without requiring any specific async runtime. It will return:
///
/// - `Some(Ok(()))` if it successfully received and delivered a message.
/// - `Some(Err(e))` if it failed to deliver a message for some reason.
/// - `None` if the backend has stopped (either after a fatal error, which will be
///   delivered just prior to this, or because the [`Client`] was dropped.
pub struct ClientDriver<R: BackendReceiver>(ResponseStreamMaster<R>);

/// An error driving the message receiving. If the driver subsequently
/// returns [`None`], it was due to the last emitted error.
pub type ClientDriverError<E> = ResponseStreamError<E>;

/// What the driver says of an outcome.
pub open spec fn driver_outcome<E>(
    outcome: Option<Result<ResponseStreamItem, ResponseStreamError<E>>>,
) -> Option<Result<(), ClientDriverError<E>>> {
    match outcome {
        Some(Ok(_)) => Some(Ok(())),
        Some(Err(error)) => Some(Err(error)),
        None => None,
    }
}

/// What the driver says of an outcome of polling.
pub open spec fn driver_polled<E>(
    polled: Poll<Option<Result<ResponseStreamItem, ResponseStreamError<E>>>>,
) -> Poll<Option<Result<(), ClientDriverError<E>>>> {
    match polled {
        Poll::Ready(outcome) => Poll::Ready(driver_outcome(outcome)),
        Poll::Pending => Poll::Pending,
    }
}

/// Whether this is what the driver has to say of the bytes of a message: that it has been delivered
/// just where they are decoded to a response of version 2.0, and else what is wrong with it.
pub open spec fn reports<E, X: FnOnce(&[u8]) -> serde_json::Error>(
    bytes: Seq<u8>,
    explain: X,
    said: Option<Result<(), ClientDriverError<E>>>,
) -> bool {
    match said {
        Some(Ok(_)) => decoded(bytes) matches Some(response) && response.version() == "2.0"@,
        Some(Err(ResponseStreamError::Response(ResponseError::Deserialize { error, bytes: copy })))
            => {
            &&& decoded(bytes) is None
            &&& may_explain(explain, bytes, error)
            &&& copy@ == bytes
        },
        Some(Err(ResponseStreamError::Response(ResponseError::InvalidVersion { bytes: copy })))
            => {
            &&& decoded(bytes) matches Some(response) && response.version() != "2.0"@
            &&& copy@ == bytes
        },
        _ => false,
    }
}

impl<R: BackendReceiver> ClientDriver<R> {
    /// The state that the streams of the client share.
    pub closed spec fn hub(self) -> int {
        self.0.hub()
    }

    /// The backend has stopped.
    pub closed spec fn done(self) -> bool {
        self.0.done()
    }

    /// Where messages come from.
    pub closed spec fn receiver(self) -> R {
        self.0.receiver()
    }

    /// The message that has been asked for and has not come yet.
    pub closed spec fn receiving(self) -> Option<R::Receiving> {
        self.0.receiving()
    }

    /// Whether the next message to wait for may be `fut`: the one that has been asked for, or
    /// else whatever the receiver hands out.
    pub open spec fn waits_for(self, fut: R::Receiving) -> bool {
        match self.receiving() {
            Some(asked) => fut == asked,
            None => call_ensures(R::receive, (&self.receiver(),), fut),
        }
    }

    /// Get the next message to wait for.
    pub fn next_message(&mut self) -> (next: NextMessage<R::Receiving>)
        ensures
            final(self).done() == old(self).done(),
            final(self).hub() == old(self).hub(),
            final(self).receiver() == old(self).receiver(),
            if old(self).done() {
                next is Finished && final(self).receiving() == old(self).receiving()
            } else {
                &&& final(self).receiving() is None
                &&& next matches NextMessage::Message(fut) && old(self).waits_for(fut)
            },
    {
        self.0.next_message()
    }

    /// Put a message back that has not come yet.
    pub fn not_ready(&mut self, fut: R::Receiving)
        ensures
            final(self).done() == old(self).done(),
            final(self).hub() == old(self).hub(),
            final(self).receiver() == old(self).receiver(),
            final(self).receiving() == Some(fut),
    {
        self.0.not_ready(fut)
    }

    /// Handle what came of waiting for a message. Of one that cannot be deserialized `explain`
    /// says what error that is.
    pub fn received<
        W,
        E,
        F: Fn(&RawResponse<'_>) -> bool,
        X: FnOnce(&[u8]) -> serde_json::Error,
    >(
        &mut self,
        inner: &mut ResponseStreamInner<W, F>,
        res: Option<Result<Vec<u8>, E>>,
        explain: X,
    ) -> (r: (Option<Result<(), ClientDriverError<E>>>, Vec<W>))
        requires
            old(inner)@.wf(),
            old(inner)@.hub == old(self).hub(),
            forall|b: &[u8]| #[trigger] call_requires(explain, (b,)),
        ensures
            final(inner)@.wf(),
            final(self).hub() == old(self).hub(),
            final(self).receiver() == old(self).receiver(),
            final(self).receiving() == old(self).receiving(),
            match res {
                None => {
                    &&& r.0 is None
                    &&& final(self).done()
                    &&& final(inner)@ == old(inner)@.finished()
                    &&& r.1@ == old(inner)@.all_parked()
                },
                Some(Err(error)) => {
                    &&& r.0 == Some(
                        Err::<(), ClientDriverError<E>>(ResponseStreamError::BackendError(error)),
                    )
                    &&& final(self).done()
                    &&& final(inner)@ == old(inner)@.finished()
                    &&& r.1@ == old(inner)@.all_parked()
                },
                Some(Ok(bytes)) => {
                    &&& final(self).done() == old(self).done()
                    &&& exists|outcome: Option<Result<ResponseStreamItem, ResponseStreamError<E>>>|
                        r.0 == #[trigger] driver_outcome(outcome) && received_message(
                            bytes@,
                            explain,
                            outcome,
                            old(inner)@,
                            final(inner)@,
                            r.1@,
                        )
                    &&& reports(bytes@, explain, r.0)
                },
            },
    {
        let ghost given = res;
        let (outcome, wakers) = self.0.received(inner, res, explain);
        assert(given matches Some(Ok(bytes)) ==> received_message(
            bytes@,
            explain,
            outcome,
            old(inner)@,
            inner@,
            wakers@,
        ));
        let ghost out = outcome;
        let told = match outcome {
            Some(Ok(_)) => Some(Ok(())),
            Some(Err(error)) => Some(Err(error)),
            None => None,
        };
        assert(told == driver_outcome(out));
        (told, wakers)
    }

    /// Receive the next message, where `poll` hands back what came of waiting for it, or the
    /// message itself where it has not come yet. Nothing is waited for once this has finished,
    /// which it has just when it said so or handed back a fatal error.
    pub fn poll_next<
        W,
        E,
        F: Fn(&RawResponse<'_>) -> bool,
        P: FnOnce(R::Receiving) -> Result<Option<Result<Vec<u8>, E>>, R::Receiving>,
        X: FnOnce(&[u8]) -> serde_json::Error,
    >(&mut self, inner: &mut ResponseStreamInner<W, F>, poll: P, explain: X) -> (r: (
        Poll<Option<Result<(), ClientDriverError<E>>>>,
        Vec<W>,
    ))
        requires
            old(inner)@.wf(),
            old(inner)@.hub == old(self).hub(),
            forall|fut: R::Receiving| #[trigger] call_requires(poll, (fut,)),
            forall|b: &[u8]| #[trigger] call_requires(explain, (b,)),
        ensures
            final(inner)@.wf(),
            final(self).hub() == old(self).hub(),
            final(self).receiver() == old(self).receiver(),
            final(self).done() == ends(r.0),
            if old(self).done() {
                &&& r.0 == Poll::Ready(None::<Result<(), ClientDriverError<E>>>)
                &&& r.1@ == Seq::<W>::empty()
                &&& final(self).receiving() == old(self).receiving()
                &&& final(inner)@ == old(inner)@
            } else {
                exists|
                    fut: R::Receiving,
                    res: Result<Option<Result<Vec<u8>, E>>, R::Receiving>,
                    polled: Poll<Option<Result<ResponseStreamItem, ResponseStreamError<E>>>>,
                |
                    #[trigger] call_ensures(poll, (fut,), res) && old(self).waits_for(fut) && r.0
                        == #[trigger] driver_polled(polled) && polled_message(
                        res,
                        explain,
                        polled,
                        final(self).receiving(),
                        old(inner)@,
                        final(inner)@,
                        r.1@,
                    ) && match res {
                        Err(_) => r.0 is Pending,
                        Ok(None) => r.0 matches Poll::Ready(None),
                        Ok(Some(Err(error))) => r.0 matches Poll::Ready(Some(Err(said))) && said
                            == ResponseStreamError::BackendError(error),
                        Ok(Some(Ok(bytes))) => r.0 matches Poll::Ready(said) && reports(
                            bytes@,
                            explain,
                            said,
                        ),
                    }
            },
    {
        let (polled, wakers) = self.0.poll_next(inner, poll, explain);
        let ghost given = polled;
        let told = match polled {
            Poll::Ready(Some(Ok(_))) => Poll::Ready(Some(Ok(()))),
            Poll::Ready(Some(Err(error))) => Poll::Ready(Some(Err(error))),
            Poll::Ready(None) => Poll::Ready(None),
            Poll::Pending => Poll::Pending,
        };
        assert(told == driver_polled(given));
        (told, wakers)
    }

    /// The driver goes, and everything else is done. Handed back are the wakers of the streams
    /// and requests that waited.
    pub fn close<W, F: Fn(&RawResponse<'_>) -> bool>(
        self,
        inner: &mut ResponseStreamInner<W, F>,
    ) -> (wakers: Vec<W>)
        requires
            old(inner)@.hub == self.hub(),
        ensures
            final(inner)@ == old(inner)@.finished(),
            wakers@ == old(inner)@.all_parked(),
            old(inner)@.wf() ==> final(inner)@.wf(),
    {
        self.0.close(inner)
    }
}

/// A struct representing messages from the server.
pub struct ServerNotifications(ResponseStreamHandle);

impl ServerNotifications {
    /// The state in which the streams are registered.
    pub closed spec fn hub(self) -> int {
        self.0.hub()
    }

    /// Return any notifications (messages without an ID) not being handed to any other stream.
    /// This is useful for debugging and diagnostic purposes, because
    /// it's likely that every incoming message is expected to be handled
    /// by something. It's the equivalent of a "404" location.
    pub fn leftovers<W, F: Fn(&RawResponse<'_>) -> bool>(
        &self,
        inner: &mut ResponseStreamInner<W, F>,
    ) -> (stream: ServerNotificationStream)
        requires
            old(inner)@.wf(),
            old(inner)@.hub == self.hub(),
            old(inner)@.next_id < u64::MAX,
        ensures
            final(inner)@ == old(inner)@.with_stream(seq![], Filter::Leftovers),
            final(inner)@.wf(),
            stream@ == (StreamView { hub: self.hub(), id: old(inner)@.next_id, queue: seq![] }),
            final(inner)@.registered(stream@.id),
    {
        ServerNotificationStream::new(self.0.leftovers(inner))
    }

    /// Return all valid notifications.
    pub fn all<W, F: Fn(&RawResponse<'_>) -> bool>(
        &self,
        inner: &mut ResponseStreamInner<W, F>,
    ) -> (stream: ServerNotificationStream)
        requires
            old(inner)@.wf(),
            old(inner)@.hub == self.hub(),
            old(inner)@.next_id < u64::MAX,
        ensures
            final(inner)@ == old(inner)@.with_stream(seq![], Filter::Notifications),
            final(inner)@.wf(),
            stream@ == (StreamView { hub: self.hub(), id: old(inner)@.next_id, queue: seq![] }),
            final(inner)@.registered(stream@.id),
    {
        ServerNotificationStream::new(self.0.with_filter(inner, Filter::Notifications))
    }

    /// Filter the incoming stream of notifications and only return
    /// matching messages. The filter is applied early on.
    pub fn with_filter<W, F: Fn(&RawResponse<'_>) -> bool>(
        &self,
        inner: &mut ResponseStreamInner<W, F>,
        filter_fn: F,
    ) -> (stream: ServerNotificationStream)
        requires
            old(inner)@.wf(),
            old(inner)@.hub == self.hub(),
            old(inner)@.next_id < u64::MAX,
            forall|m: &RawResponse<'_>| #[trigger] call_requires(filter_fn, (m,)),
        ensures
            final(inner)@ == old(inner)@.with_stream(seq![], Filter::Matching(Arc::new(filter_fn))),
            final(inner)@.wf(),
            stream@ == (StreamView { hub: self.hub(), id: old(inner)@.next_id, queue: seq![] }),
            final(inner)@.registered(stream@.id),
    {
        let filter = Filter::Matching(Arc::new(filter_fn));
        ServerNotificationStream::new(self.0.with_filter(inner, filter))
    }
}

/// A stream of server notifications.
pub struct ServerNotificationStream {
    stream: ResponseStream,
}

impl View for ServerNotificationStream {
    type V = StreamView;

    closed spec fn view(&self) -> StreamView {
        self.stream@
    }
}

impl ServerNotificationStream {
    fn new(stream: ResponseStream) -> (r: Self)
        ensures
            r@ == stream@,
    {
        ServerNotificationStream { stream }
    }

    /// Emit the next message. If there is none yet, the waker is kept, to be handed back with
    /// the next message that the stream gets.
    pub fn poll_next<W, F: Fn(&RawResponse<'_>) -> bool>(
        &mut self,
        inner: &mut ResponseStreamInner<W, F>,
        waker: W,
    ) -> (polled: Poll<Option<Response>>)
        requires
            old(inner)@.wf(),
            old(inner)@.hub == old(self)@.hub,
            old(inner)@.registered(old(self)@.id),
        ensures
            final(inner)@.wf(),
            final(self)@.id == old(self)@.id,
            final(inner)@.registered(final(self)@.id),
            ({
                let (emitted, stream, after) = poll_step(old(self)@, old(inner)@, waker);
                &&& final(self)@ == stream
                &&& final(inner)@ == after
                &&& match emitted {
                    Poll::Ready(Some(item)) => polled matches Poll::Ready(Some(response))
                        && response@ == item@,
                    Poll::Ready(None) => polled matches Poll::Ready(None),
                    Poll::Pending => polled is Pending,
                }
            }),
    {
        match self.stream.poll_next(inner, waker) {
            Poll::Ready(Some(item)) => Poll::Ready(Some(Response::new(item))),
            Poll::Ready(None) => Poll::Ready(None),
            Poll::Pending => Poll::Pending,
        }
    }

    /// De-register the stream.
    pub fn close<W, F: Fn(&RawResponse<'_>) -> bool>(self, inner: &mut ResponseStreamInner<W, F>)
        requires
            old(inner)@.wf(),
            old(inner)@.hub == self@.hub,
        ensures
            final(inner)@.wf(),
            final(inner)@ == (if old(inner)@.registered(self@.id) {
                old(inner)@.without(self@.id)
            } else {
                old(inner)@
            }),
            !final(inner)@.registered(self@.id),
    {
        self.stream.close(inner);
    }
}

} // verus!
