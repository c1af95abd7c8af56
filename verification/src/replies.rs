//! What calls of the mock backend come to, said of what goes into them and what comes out.
use crate::backend::mock::{
    refusal, refused, request_decoded, response_bytes, sends_to, MockBackend, MockBackendReceiver,
    MockBackendSender, MockView, SendOutcome,
};
use crate::decoding::starts_like_null;
use crate::json::RawJson;
use crate::raw_response::{
    decoded, ErrorObjectView, ErrorView, OkView, RawResponse, ResponseView,
};
use crate::response_stream::Poll;
use std::sync::Arc;
use vstd::prelude::*;
use vstd::utf8::encode_utf8;

verus! {

/// Whether some bytes have been put behind what is to be received, and what is to be woken for
/// them is handed back; or nothing has happened, after a shutdown.
pub open spec fn has_been_queued<H, W>(
    before: MockView<H, W>,
    after: MockView<H, W>,
    bytes: Seq<u8>,
    waker: Option<W>,
) -> bool {
    &&& after.handlers == before.handlers
    &&& after.stopped == before.stopped
    &&& if before.stopped {
        &&& after.send_queue == before.send_queue
        &&& after.send_waker == before.send_waker
        &&& waker is None
    } else {
        &&& after.send_queue == before.send_queue.push(bytes)
        &&& after.send_waker is None
        &&& waker == before.send_waker
    }
}

/// Whether bytes have been put behind what is to be received from which this response is decoded.
pub open spec fn has_been_answered<H, W>(
    before: MockView<H, W>,
    after: MockView<H, W>,
    response: ResponseView,
    waker: Option<W>,
) -> bool {
    exists|bytes: Seq<u8>| #[trigger]
        has_been_queued(before, after, bytes, waker) && decoded(bytes) == Some(response)
}

/// Bytes that are sent are received behind those that were sent before.
pub proof fn sent_bytes_are_queued<H, W>(
    backend: &mut MockBackend<H, W>,
    bytes: Vec<u8>,
    waker: Option<W>,
)
    requires
        call_ensures(MockBackend::<H, W>::send_bytes, (backend, bytes), waker),
    ensures
        has_been_queued(old(backend)@, final(backend)@, bytes@, waker),
{
}

/// A response that is sent is received: what is decoded from the bytes is that response, unless it
/// has data that is `null`.
pub proof fn sent_responses_are_queued<'a, H, W>(
    backend: &mut MockBackend<H, W>,
    response: &RawResponse<'a>,
    waker: Option<W>,
)
    requires
        call_ensures(MockBackend::<H, W>::send_response, (backend, response), waker),
    ensures
        exists|bytes: Seq<u8>| #[trigger]
            has_been_queued(old(backend)@, final(backend)@, bytes, waker),
        response@ is Success ==> has_been_answered(
            old(backend)@,
            final(backend)@,
            response@,
            waker,
        ),
        response@ matches ResponseView::Error(e) ==> (e.error.data is None || !starts_like_null(
            encode_utf8(e.error.data->0),
        )) ==> has_been_answered(old(backend)@, final(backend)@, response@, waker),
{
    let bytes = response_bytes(response@);
    assert(has_been_queued(old(backend)@, final(backend)@, bytes, waker));
}

/// What is sent as a result or a notification is received as one, with its ID and its value.
pub proof fn sent_results_are_queued<H, W>(
    backend: &mut MockBackend<H, W>,
    id: Option<String>,
    value: RawJson,
    waker: Option<W>,
    other: &mut MockBackend<H, W>,
    told: RawJson,
    woken: Option<W>,
)
    requires
        call_ensures(MockBackend::<H, W>::send_ok_response, (backend, id, value), waker),
        call_ensures(MockBackend::<H, W>::send_ok_notification, (other, told), woken),
    ensures
        id matches Some(id) ==> has_been_answered(
            old(backend)@,
            final(backend)@,
            ResponseView::Success(
                OkView { jsonrpc: "2.0"@, id: Some(id@), result: value@ },
            ),
            waker,
        ),
        id is None ==> has_been_answered(
            old(backend)@,
            final(backend)@,
            ResponseView::Success(OkView { jsonrpc: "2.0"@, id: None, result: value@ }),
            waker,
        ),
        has_been_answered(
            old(other)@,
            final(other)@,
            ResponseView::Success(OkView { jsonrpc: "2.0"@, id: None, result: told@ }),
            woken,
        ),
{
    let sent = ResponseView::Success(
        OkView {
            jsonrpc: "2.0"@,
            id: match id {
                Some(id) => Some(id@),
                None => None,
            },
            result: value@,
        },
    );
    let noted = ResponseView::Success(OkView { jsonrpc: "2.0"@, id: None, result: told@ });
    assert(has_been_queued(
        old(backend)@,
        final(backend)@,
        response_bytes(sent),
        waker,
    ));
    assert(has_been_queued(
        old(other)@,
        final(other)@,
        response_bytes(noted),
        woken,
    ));
}

/// What the backend makes of a message: one that holds no request changes nothing. A request of
/// another version is answered, under its ID, with a parse error that names the version; one for
/// whose method there is no handler with an error that names the method. Any other goes to the
/// handler of its method, as it is.
pub open spec fn has_been_handled<H, W>(
    data: Seq<u8>,
    before: MockView<H, W>,
    after: MockView<H, W>,
    outcome: SendOutcome<H, W>,
) -> bool {
    match request_decoded(data) {
        None => outcome is Undecodable && after == before,
        Some(request) => if request.jsonrpc != "2.0"@ {
            outcome matches SendOutcome::Refused(waker) && has_been_answered(
                before,
                after,
                ResponseView::Error(
                    ErrorView {
                        jsonrpc: "2.0"@,
                        id: request.id,
                        error: ErrorObjectView {
                            code: (-32700) as i32,
                            message: "\"jsonrpc\" field was not equal to \"2.0\", was "@
                                + request.jsonrpc,
                            data: None,
                        },
                    },
                ),
                waker,
            )
        } else if before.handlers.contains_key(request.method) {
            &&& outcome matches SendOutcome::Handle(handler, handed) && handler
                == before.handlers[request.method] && handed@ == request
            &&& after == before
        } else {
            outcome matches SendOutcome::Refused(waker) && has_been_answered(
                before,
                after,
                ResponseView::Error(
                    ErrorView {
                        jsonrpc: "2.0"@,
                        id: request.id,
                        error: ErrorObjectView {
                            code: (-32601) as i32,
                            message: "No method named '"@ + request.method + "'"@,
                            data: None,
                        },
                    },
                ),
                waker,
            )
        },
    }
}

proof fn lemma_handled<H, W>(
    data: Seq<u8>,
    before: MockView<H, W>,
    after: MockView<H, W>,
    outcome: SendOutcome<H, W>,
)
    requires
        sends_to(data, before, after, outcome),
    ensures
        has_been_handled(data, before, after, outcome),
{
    if let Some(request) = request_decoded(data) {
        if let Some(error) = refusal(
            request,
            before.handlers.contains_key(request.method),
        ) {
            let answer = refused(request.id, error);
            assert(has_been_queued(
                before,
                after,
                response_bytes(answer),
                before.woken(),
            ));
        }
    }
}

/// A message that is handed to the backend is handled or answered as its request asks for.
pub proof fn sent_requests_are_handled<H, W>(
    sender: &MockBackendSender,
    backend: &mut MockBackend<H, W>,
    data: &[u8],
    outcome: SendOutcome<H, W>,
)
    requires
        call_ensures(MockBackendSender::send::<H, W>, (sender, backend, data), outcome),
    ensures
        has_been_handled(data@, old(backend)@, final(backend)@, outcome),
{
    lemma_handled(data@, old(backend)@, final(backend)@, outcome);
}

/// Any message can be handed to the backend: one that is a text or holds a request is handled or
/// answered, and any other changes nothing.
pub proof fn any_message_can_be_sent<H, W>(
    sender: &MockBackendSender,
    backend: &mut MockBackend<H, W>,
    data: &[u8],
    outcome: Option<SendOutcome<H, W>>,
)
    requires
        call_ensures(MockBackendSender::try_send::<H, W>, (sender, backend, data), outcome),
    ensures
        outcome matches Some(outcome) ==> has_been_handled(
            data@,
            old(backend)@,
            final(backend)@,
            outcome,
        ),
        outcome is None ==> final(backend)@ == old(backend)@ && request_decoded(data@) is None
            && !vstd::utf8::valid_utf8(data@),
{
    if let Some(outcome) = outcome {
        lemma_handled(data@, old(backend)@, final(backend)@, outcome);
    }
}

/// A handler handles the requests for its method from then on, in place of any other, and nothing
/// else changes.
pub proof fn handlers_handle_their_methods<H, W>(
    backend: &mut MockBackend<H, W>,
    name: &str,
    callback: H,
    method: Seq<char>,
)
    requires
        call_ensures(MockBackend::<H, W>::handler, (backend, name, callback), ()),
    ensures
        final(backend)@.handlers.contains_key(name@),
        final(backend)@.handlers[name@] == Arc::new(callback),
        ({
            let before = old(backend)@.handlers;
            let after = final(backend)@.handlers;
            &&& method != name@ ==> (after.contains_key(method) <==> before.contains_key(method))
            &&& method != name@ && before.contains_key(method) ==> after[method] == before[method]
        }),
        final(backend)@.send_queue == old(backend)@.send_queue,
        final(backend)@.send_waker == old(backend)@.send_waker,
        final(backend)@.stopped == old(backend)@.stopped,
{
}

/// Messages are received in the order in which they were sent, also after a shutdown, and the end
/// comes only behind the last of them.
pub proof fn messages_are_received_in_order<H, W>(
    receiver: &MockBackendReceiver,
    backend: &mut MockBackend<H, W>,
    waker: W,
    polled: Poll<Option<Vec<u8>>>,
)
    requires
        call_ensures(MockBackendReceiver::receive::<H, W>, (receiver, backend, waker), polled),
    ensures
        final(backend)@.handlers == old(backend)@.handlers,
        final(backend)@.stopped == old(backend)@.stopped,
        match polled {
            Poll::Ready(Some(bytes)) => {
                &&& old(backend)@.send_queue == seq![bytes@] + final(backend)@.send_queue
                &&& final(backend)@.send_waker == old(backend)@.send_waker
            },
            Poll::Ready(None) => {
                &&& old(backend)@.send_queue.len() == 0
                &&& old(backend)@.stopped
                &&& final(backend)@ == old(backend)@
            },
            Poll::Pending => {
                &&& old(backend)@.send_queue.len() == 0
                &&& !old(backend)@.stopped
                &&& final(backend)@.send_queue.len() == 0
                &&& final(backend)@.send_waker == Some(waker)
            },
        },
{
    let queue = old(backend)@.send_queue;
    if queue.len() > 0 {
        assert(seq![queue[0]] + queue.drop_first() =~= queue);
    }
}

/// A shutdown keeps what is still to be received, and wakes who waits for more.
pub proof fn shutdowns_keep_what_was_sent<H, W>(
    backend: &mut MockBackend<H, W>,
    waker: Option<W>,
    sender: MockBackendSender,
    other: &mut MockBackend<H, W>,
    woken: Option<W>,
)
    requires
        call_ensures(MockBackend::<H, W>::shutdown, (backend,), waker),
        call_ensures(MockBackendSender::close::<H, W>, (sender, other), woken),
    ensures
        final(backend)@.stopped && final(other)@.stopped,
        final(backend)@.send_queue == old(backend)@.send_queue,
        final(other)@.send_queue == old(other)@.send_queue,
        final(backend)@.handlers == old(backend)@.handlers,
        final(other)@.handlers == old(other)@.handlers,
        final(backend)@.send_waker is None && waker == old(backend)@.send_waker,
        final(other)@.send_waker is None && woken == old(other)@.send_waker,
{
}

} // verus!
