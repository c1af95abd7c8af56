//! A mock backend which can be used in tests or examples.
//!
//! The parts of the mock backend share its state, a [`MockBackend`]. Handlers are values of some
//! type `H`, which the caller runs, and wakers are values of some type `W`, which the caller
//! wakes.
use crate::compose::object_bytes;
use crate::fields::{
    check_fits, field, find, fits, optional_string_field, raw_value,
    read_optional_string_field, read_string_field, string_field, FieldView,
};
use crate::json::{null_text, RawJson};
use crate::layout::{document, read_document, Parts, PartsView};
use crate::raw_response::{
    decoded, distinguishable, response_pairs, ErrorObject, ErrorObjectView, ErrorView, OkView,
    RawResponse, ResponseView, CODE_METHOD_NOT_FOUND, CODE_PARSE_ERROR,
};
use crate::response_stream::Poll;
use crate::text::{is_utf8, same_text};
use std::borrow::Cow;
use std::collections::VecDeque;
use std::sync::Arc;
use vstd::prelude::*;
use vstd::slice::slice_to_vec;
use vstd::string::StringExecFns;
use vstd::utf8::valid_utf8;

verus! {

/// What a request holds.
pub struct MockRequestView {
    pub jsonrpc: Seq<char>,
    pub id: Option<Seq<char>>,
    pub method: Seq<char>,
    pub params: Seq<char>,
}

/// A mock request
#[derive(Debug)]
pub struct MockRequest {
    pub jsonrpc: String,
    pub id: Option<String>,
    pub method: String,
    pub params: RawJson,
}

impl Clone for MockRequest {
    fn clone(&self) -> (r: Self)
        ensures
            r@ == self@,
    {
        MockRequest {
            jsonrpc: self.jsonrpc.clone(),
            id: match &self.id {
                Some(id) => Some(id.clone()),
                None => None,
            },
            method: self.method.clone(),
            params: self.params.clone(),
        }
    }
}

/// The contents of an optional string.
pub open spec fn optional_string(text: Option<String>) -> Option<Seq<char>> {
    match text {
        Some(t) => Some(t@),
        None => None,
    }
}

impl View for MockRequest {
    type V = MockRequestView;

    open spec fn view(&self) -> MockRequestView {
        MockRequestView {
            jsonrpc: self.jsonrpc@,
            id: optional_string(self.id),
            method: self.method@,
            params: self.params@,
        }
    }
}

/// The parameters that a message holds: `null` where there are none.
pub open spec fn params_field(parts: PartsView) -> Option<Seq<char>> {
    match field(parts, "params"@, 3) {
        FieldView::Missing => Some(null_text()),
        FieldView::Value(value) => raw_value(value),
        FieldView::Duplicate => None,
    }
}

/// The request that the parts of a message make up.
pub open spec fn request_parts(parts: PartsView) -> Option<MockRequestView> {
    if !fits(parts, 3, 4) {
        None
    } else {
        match string_field(parts, "jsonrpc"@, 0) {
            Some(jsonrpc) => match optional_string_field(parts, "id"@, 1) {
                Some(id) => match string_field(parts, "method"@, 2) {
                    Some(method) => match params_field(parts) {
                        Some(params) => Some(MockRequestView { jsonrpc, id, method, params }),
                        None => None,
                    },
                    None => None,
                },
                None => None,
            },
            None => None,
        }
    }
}

/// The request that some bytes hold.
pub open spec fn request_decoded(bytes: Seq<u8>) -> Option<MockRequestView> {
    match document(bytes) {
        Some(parts) => request_parts(parts),
        None => None,
    }
}

fn empty_raw_value() -> (json: RawJson)
    ensures
        json@ == null_text(),
{
    RawJson::null()
}

fn read_params(parts: &Parts) -> (r: Option<RawJson>)
    requires
        parts.hold_values(),
    ensures
        match r {
            Some(json) => params_field(parts@) == Some(json@),
            None => params_field(parts@) is None,
        },
{
    match find(parts, "params", 3) {
        Some(Some(value)) => RawJson::from_value(value.as_slice()),
        Some(None) => Some(empty_raw_value()),
        None => None,
    }
}

fn read_request(parts: &Parts) -> (r: Option<MockRequest>)
    requires
        parts.hold_values(),
    ensures
        match r {
            Some(request) => request_parts(parts@) == Some(request@),
            None => request_parts(parts@) is None,
        },
{
    if !check_fits(parts, 3, 4) {
        return None;
    }
    let jsonrpc = match read_string_field(parts, "jsonrpc", 0) {
        Some(jsonrpc) => jsonrpc,
        None => {
            return None;
        },
    };
    let id = match read_optional_string_field(parts, "id", 1) {
        Some(id) => id,
        None => {
            return None;
        },
    };
    let method = match read_string_field(parts, "method", 2) {
        Some(method) => method,
        None => {
            return None;
        },
    };
    match read_params(parts) {
        Some(params) => Some(MockRequest { jsonrpc, id, method, params }),
        None => None,
    }
}

impl MockRequest {
    /// Decode some bytes into a request.
    pub fn from_slice(bytes: &[u8]) -> (r: Option<MockRequest>)
        ensures
            match r {
                Some(request) => request_decoded(bytes@) == Some(request@),
                None => request_decoded(bytes@) is None,
            },
    {
        match read_document(bytes) {
            Some(parts) => read_request(&parts),
            None => None,
        }
    }
}

/// A mock backend.
pub struct MockBackend<H, W> {
    handlers: Vec<(String, Arc<H>)>,
    stopped: bool,
    send_waker: Option<W>,
    send_queue: VecDeque<Vec<u8>>,
}

/// What the parts of a mock backend share.
pub struct MockView<H, W> {
    /// The handlers, by the methods that they handle.
    pub handlers: Map<Seq<char>, Arc<H>>,
    /// The backend has been shut down.
    pub stopped: bool,
    /// What has to be woken when a message is to be received.
    pub send_waker: Option<W>,
    /// The messages that are to be received.
    pub send_queue: Seq<Seq<u8>>,
}

/// The handlers that a list of names and handlers makes up. The last one of a name counts.
pub open spec fn handlers_by_name<H>(list: Seq<(String, Arc<H>)>) -> Map<Seq<char>, Arc<H>>
    decreases list.len(),
{
    if list.len() == 0 {
        Map::empty()
    } else {
        handlers_by_name(list.drop_last()).insert(list.last().0@, list.last().1)
    }
}

impl<H, W> View for MockBackend<H, W> {
    type V = MockView<H, W>;

    closed spec fn view(&self) -> MockView<H, W> {
        MockView {
            handlers: handlers_by_name(self.handlers@),
            stopped: self.stopped,
            send_waker: self.send_waker,
            send_queue: self.send_queue@.map_values(|m: Vec<u8>| m@),
        }
    }
}

impl<H, W> MockView<H, W> {
    /// Once some bytes have been sent: nothing after a shutdown.
    pub open spec fn sent(self, bytes: Seq<u8>) -> MockView<H, W> {
        if self.stopped {
            self
        } else {
            MockView { send_queue: self.send_queue.push(bytes), send_waker: None, ..self }
        }
    }

    /// What is woken when some bytes are sent.
    pub open spec fn woken(self) -> Option<W> {
        if self.stopped {
            None
        } else {
            self.send_waker
        }
    }
}

/// The bytes of a response.
pub open spec fn response_bytes(response: ResponseView) -> Seq<u8> {
    object_bytes(response_pairs(response))
}

/// Whether the bytes of a response are decoded to the response.
pub open spec fn decodes_back(response: ResponseView) -> bool {
    decoded(response_bytes(response)) == Some(response)
}

proof fn lemma_found<H>(list: Seq<(String, Arc<H>)>, i: int, name: Seq<char>)
    requires
        0 <= i < list.len(),
        list[i].0@ == name,
        forall|j: int| i < j < list.len() ==> (#[trigger] list[j]).0@ != name,
    ensures
        handlers_by_name(list).contains_key(name),
        handlers_by_name(list)[name] == list[i].1,
    decreases list.len(),
{
    if i < list.len() - 1 {
        assert(list[list.len() - 1].0@ != name);
        lemma_found(list.drop_last(), i, name);
    }
}

proof fn lemma_not_found<H>(list: Seq<(String, Arc<H>)>, name: Seq<char>)
    requires
        forall|j: int| 0 <= j < list.len() ==> (#[trigger] list[j]).0@ != name,
    ensures
        !handlers_by_name(list).contains_key(name),
    decreases list.len(),
{
    if list.len() > 0 {
        assert(list[list.len() - 1].0@ != name);
        assert forall|j: int| 0 <= j < list.drop_last().len() implies (
        #[trigger] list.drop_last()[j]).0@ != name by {
            assert(list.drop_last()[j] == list[j]);
        }
        lemma_not_found(list.drop_last(), name);
    }
}

proof fn lemma_replaced<H>(
    list: Seq<(String, Arc<H>)>,
    i: int,
    name: Seq<char>,
    entry: (String, Arc<H>),
)
    requires
        0 <= i < list.len(),
        list[i].0@ == name,
        entry.0@ == name,
        forall|j: int| i < j < list.len() ==> (#[trigger] list[j]).0@ != name,
    ensures
        handlers_by_name(list.update(i, entry)) == handlers_by_name(list).insert(name, entry.1),
    decreases list.len(),
{
    let changed = list.update(i, entry);
    if i == list.len() - 1 {
        assert(changed.drop_last() =~= list.drop_last());
        assert(handlers_by_name(changed) =~= handlers_by_name(list).insert(name, entry.1));
    } else {
        assert(list[list.len() - 1].0@ != name);
        assert(changed.drop_last() =~= list.drop_last().update(i, entry));
        lemma_replaced(list.drop_last(), i, name, entry);
        assert(handlers_by_name(changed) =~= handlers_by_name(list).insert(name, entry.1));
    }
}

/// What came of handing a message to the mock backend.
pub enum SendOutcome<H, W> {
    /// The message is no request.
    Undecodable,
    /// The request has been answered with an error, for which this has to be woken.
    Refused(Option<W>),
    /// The request has to be handed to this handler.
    Handle(Arc<H>, MockRequest),
}

/// The sender half of the mock backend.
pub struct MockBackendSender;

/// The receiver half of the mock backend.
pub struct MockBackendReceiver;

/// Construct a new mock backend.
pub fn build<H, W>() -> (r: (MockBackend<H, W>, MockBackendSender, MockBackendReceiver))
    ensures
        r.0@.handlers == Map::<Seq<char>, Arc<H>>::empty(),
        !r.0@.stopped,
        r.0@.send_waker is None,
        r.0@.send_queue == Seq::<Seq<u8>>::empty(),
{
    let backend = MockBackend {
        handlers: Vec::new(),
        stopped: false,
        send_waker: None,
        send_queue: VecDeque::new(),
    };
    assert(backend@.send_queue =~= Seq::<Seq<u8>>::empty());
    (backend, MockBackendSender, MockBackendReceiver)
}

impl<H, W> MockBackend<H, W> {
    fn find_handler(&self, name: &str) -> (place: Option<usize>)
        ensures
            match place {
                Some(i) => i < self.handlers@.len() && self.handlers@[i as int].0@ == name@ && (
                forall|j: int|
                    i < j < self.handlers@.len() ==> (#[trigger] self.handlers@[j]).0@ != name@),
                None => forall|j: int|
                    0 <= j < self.handlers@.len() ==> (#[trigger] self.handlers@[j]).0@ != name@,
            },
    {
        let mut i: usize = self.handlers.len();
        while i > 0
            invariant
                i <= self.handlers@.len(),
                forall|j: int|
                    i <= j < self.handlers@.len() ==> (#[trigger] self.handlers@[j]).0@ != name@,
            decreases i,
        {
            i = i - 1;
            if same_text(self.handlers[i].0.as_str(), name) {
                return Some(i);
            }
        }
        None
    }

    /// Add a handler. It takes the place of an earlier one for the same method.
    pub fn handler(&mut self, name: &str, callback: H)
        ensures
            final(self)@ == (MockView {
                handlers: old(self)@.handlers.insert(name@, Arc::new(callback)),
                ..old(self)@
            }),
    {
        let ghost before = self.handlers@;
        let entry = (name.to_owned(), Arc::new(callback));
        match self.find_handler(name) {
            Some(i) => {
                self.handlers.set(i, entry);
                proof {
                    lemma_replaced(before, i as int, name@, entry);
                }
            },
            None => {
                self.handlers.push(entry);
                assert(self.handlers@.drop_last() =~= before);
            },
        }
    }

    /// Send an OK notification back. Handed back is what has to be woken for it.
    pub fn send_ok_notification(&mut self, value: RawJson) -> (waker: Option<W>)
        ensures
            final(self)@ == old(self)@.sent(
                response_bytes(
                    ResponseView::Success(OkView { jsonrpc: "2.0"@, id: None, result: value@ }),
                ),
            ),
            decodes_back(
                ResponseView::Success(OkView { jsonrpc: "2.0"@, id: None, result: value@ }),
            ),
            waker == old(self)@.woken(),
    {
        let res = RawResponse::ok_from_value(None, value);
        self.send_response(&res)
    }

    /// Send an OK response back. Handed back is what has to be woken for it.
    pub fn send_ok_response(&mut self, id: Option<String>, value: RawJson) -> (waker: Option<W>)
        ensures
            final(self)@ == old(self)@.sent(
                response_bytes(
                    ResponseView::Success(
                        OkView { jsonrpc: "2.0"@, id: optional_string(id), result: value@ },
                    ),
                ),
            ),
            decodes_back(
                ResponseView::Success(
                    OkView { jsonrpc: "2.0"@, id: optional_string(id), result: value@ },
                ),
            ),
            waker == old(self)@.woken(),
    {
        let res = RawResponse::ok_from_value(id, value);
        self.send_response(&res)
    }

    /// Send a [`RawResponse`] back. What is decoded from it is the response itself, unless it has
    /// error data that is `null`. Handed back is what has to be woken for it.
    pub fn send_response(&mut self, response: &RawResponse<'_>) -> (waker: Option<W>)
        ensures
            final(self)@ == old(self)@.sent(response_bytes(response@)),
            distinguishable(response@) ==> decodes_back(response@),
            waker == old(self)@.woken(),
    {
        let json = response.to_json();
        self.send_bytes(slice_to_vec(json.get().as_bytes()))
    }

    /// Send raw bytes to be received by the [`MockBackendReceiver`]. Handed back is what has to
    /// be woken for them.
    pub fn send_bytes(&mut self, bytes: Vec<u8>) -> (waker: Option<W>)
        ensures
            final(self)@ == old(self)@.sent(bytes@),
            waker == old(self)@.woken(),
    {
        if self.stopped {
            return None;
        }
        let ghost before = self@;
        self.send_queue.push_back(bytes);
        let waker = self.send_waker.take();
        assert(self@.send_queue =~= before.send_queue.push(bytes@));
        waker
    }

    /// Shut the backend down. It'll return None when asked for
    /// messages as soon as any existing queue has been drained. Handed back is what has to be
    /// woken.
    pub fn shutdown(&mut self) -> (waker: Option<W>)
        ensures
            final(self)@ == (MockView { stopped: true, send_waker: None, ..old(self)@ }),
            waker == old(self)@.send_waker,
    {
        self.stopped = true;
        self.send_waker.take()
    }
}

/// The error that a request is refused with: its version is wrong, or its method has no handler.
pub open spec fn refusal(request: MockRequestView, found: bool) -> Option<ErrorObjectView> {
    if request.jsonrpc != "2.0"@ {
        Some(
            ErrorObjectView {
                code: CODE_PARSE_ERROR,
                message: "\"jsonrpc\" field was not equal to \"2.0\", was "@ + request.jsonrpc,
                data: None,
            },
        )
    } else if !found {
        Some(
            ErrorObjectView {
                code: CODE_METHOD_NOT_FOUND,
                message: "No method named '"@ + request.method + "'"@,
                data: None,
            },
        )
    } else {
        None
    }
}

/// The answer to a request that is refused.
pub open spec fn refused(id: Option<Seq<char>>, error: ErrorObjectView) -> ResponseView {
    ResponseView::Error(ErrorView { jsonrpc: "2.0"@, id, error })
}

/// What handing some bytes to the backend comes to: the state before and after it, and the
/// outcome.
pub open spec fn sends_to<H, W>(
    data: Seq<u8>,
    before: MockView<H, W>,
    after: MockView<H, W>,
    outcome: SendOutcome<H, W>,
) -> bool {
    match request_decoded(data) {
        None => outcome is Undecodable && after == before,
        Some(request) => match refusal(request, before.handlers.contains_key(request.method)) {
            Some(error) => {
                &&& outcome == SendOutcome::<H, W>::Refused(before.woken())
                &&& after == before.sent(response_bytes(refused(request.id, error)))
                &&& decodes_back(refused(request.id, error))
            },
            None => {
                &&& outcome matches SendOutcome::Handle(handler, handed) && handler
                    == before.handlers[request.method] && handed@ == request
                &&& after == before
            },
        },
    }
}

impl MockBackendSender {
    /// Hand any message to the backend. One that is neither a request nor a text is left alone.
    pub fn try_send<H, W>(&self, backend: &mut MockBackend<H, W>, data: &[u8]) -> (outcome: Option<
        SendOutcome<H, W>,
    >)
        ensures
            match outcome {
                Some(outcome) => sends_to(data@, old(backend)@, final(backend)@, outcome),
                None => final(backend)@ == old(backend)@,
            },
            outcome is Some <==> request_decoded(data@) is Some || valid_utf8(data@),
    {
        if is_utf8(data) || MockRequest::from_slice(data).is_some() {
            Some(self.send(backend, data))
        } else {
            None
        }
    }

    /// Hand a message to the backend: its handler is to be run, or an error is sent back where
    /// the version is wrong or the method has no handler. A message that is no request is
    /// passed over; it has to be a text, which is what is said of it then.
    pub fn send<H, W>(&self, backend: &mut MockBackend<H, W>, data: &[u8]) -> (outcome: SendOutcome<
        H,
        W,
    >)
        requires
            request_decoded(data@) is Some || valid_utf8(data@),
        ensures
            sends_to(data@, old(backend)@, final(backend)@, outcome),
    {
        let request = match MockRequest::from_slice(data) {
            Some(request) => request,
            None => {
                return SendOutcome::Undecodable;
            },
        };
        // Complain if not 2.0
        if !same_text(request.jsonrpc.as_str(), "2.0") {
            let mut message = "\"jsonrpc\" field was not equal to \"2.0\", was ".to_owned();
            message.append(request.jsonrpc.as_str());
            let error = ErrorObject {
                code: CODE_PARSE_ERROR,
                message: Cow::Owned(message),
                data: None,
            };
            let response = RawResponse::err_from_value(request.id, error);
            return SendOutcome::Refused(backend.send_response(&response));
        }
        match backend.find_handler(request.method.as_str()) {
            Some(i) => {
                proof {
                    lemma_found(backend.handlers@, i as int, request.method@);
                }
                let handler = backend.handlers[i].1.clone();
                SendOutcome::Handle(handler, request)
            },
            None => {
                proof {
                    lemma_not_found(backend.handlers@, request.method@);
                }
                let mut message = "No method named '".to_owned();
                message.append(request.method.as_str());
                message.append("'");
                let error = ErrorObject {
                    code: CODE_METHOD_NOT_FOUND,
                    message: Cow::Owned(message),
                    data: None,
                };
                let response = RawResponse::err_from_value(request.id, error);
                SendOutcome::Refused(backend.send_response(&response))
            },
        }
    }

    /// The sender goes, which shuts the backend down. Handed back is what has to be woken.
    pub fn close<H, W>(self, backend: &mut MockBackend<H, W>) -> (waker: Option<W>)
        ensures
            final(backend)@ == (MockView { stopped: true, send_waker: None, ..old(backend)@ }),
            waker == old(backend)@.send_waker,
    {
        backend.shutdown()
    }
}

impl MockBackendReceiver {
    /// Receive the next message: the first one in the queue, or none once the backend has been
    /// shut down. If there is none yet, the waker is kept, to be handed back with the next one.
    pub fn receive<H, W>(&self, backend: &mut MockBackend<H, W>, waker: W) -> (polled: Poll<
        Option<Vec<u8>>,
    >)
        ensures
            if old(backend)@.send_queue.len() > 0 {
                &&& polled matches Poll::Ready(Some(bytes)) && bytes@ == old(backend)@.send_queue[0]
                &&& final(backend)@ == (MockView {
                    send_queue: old(backend)@.send_queue.drop_first(),
                    ..old(backend)@
                })
            } else if old(backend)@.stopped {
                &&& polled matches Poll::Ready(None)
                &&& final(backend)@ == old(backend)@
            } else {
                &&& polled is Pending
                &&& final(backend)@ == (MockView { send_waker: Some(waker), ..old(backend)@ })
            },
    {
        let ghost before = backend@;
        if let Some(item) = backend.send_queue.pop_front() {
            assert(backend@.send_queue =~= before.send_queue.drop_first());
            Poll::Ready(Some(item))
        } else if backend.stopped {
            Poll::Ready(None)
        } else {
            backend.send_waker = Some(waker);
            Poll::Pending
        }
    }
}

} // verus!
