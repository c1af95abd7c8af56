//! The client against the mock backend, driven by hand.
use serde::de::Error;
use std::cell::RefCell;
use std::rc::Rc;
use thin_jsonrpc_client::backend::mock::{
    build, MockBackend, MockBackendReceiver, MockBackendSender, MockRequest, SendOutcome,
};
use thin_jsonrpc_client::backend::{BackendReceiver, BackendSender};
use thin_jsonrpc_client::json::RawJson;
use thin_jsonrpc_client::params::{ArrayParams, ObjectParams};
use thin_jsonrpc_client::raw_response::RawResponse;
use thin_jsonrpc_client::response_stream::{
    NextMessage, Poll, ResponseStreamError, ResponseStreamInner,
};
use thin_jsonrpc_client::{
    Client, ClientDriver, ClientDriverError, RequestError, Response, ResponseError,
};

type Handler = fn(MockRequest) -> RawResponse<'static>;
type Backend = Rc<RefCell<MockBackend<Handler, u32>>>;
type FilterFn = fn(&RawResponse<'_>) -> bool;
type Inner = ResponseStreamInner<u32, FilterFn>;

struct Sender {
    backend: Backend,
    half: MockBackendSender,
    sent: Rc<RefCell<Vec<Vec<u8>>>>,
}

impl BackendSender for Sender {
    type Sending = Result<(), String>;

    fn send(&self, data: &[u8]) -> Result<(), String> {
        self.sent.borrow_mut().push(data.to_vec());
        let outcome = self.half.send(&mut *self.backend.borrow_mut(), data);
        match outcome {
            SendOutcome::Handle(handler, request) => {
                let response = handler(request);
                self.backend.borrow_mut().send_response(&response);
                Ok(())
            }
            SendOutcome::Refused(_) => Ok(()),
            SendOutcome::Undecodable => Err("undecodable".to_string()),
        }
    }
}

struct Receiver {
    asked: Rc<RefCell<u32>>,
}

impl BackendReceiver for Receiver {
    type Receiving = u32;

    fn receive(&self) -> u32 {
        *self.asked.borrow_mut() += 1;
        *self.asked.borrow()
    }
}

struct Setup {
    client: Client<Sender>,
    driver: ClientDriver<Receiver>,
    inner: Inner,
    backend: Backend,
    half: MockBackendReceiver,
    sent: Rc<RefCell<Vec<Vec<u8>>>>,
    asked: Rc<RefCell<u32>>,
}

fn mock_client() -> Setup {
    let (backend, send_half, half) = build();
    let backend = Rc::new(RefCell::new(backend));
    let sent = Rc::new(RefCell::new(Vec::new()));
    let asked = Rc::new(RefCell::new(0));
    let sender = Sender { backend: backend.clone(), half: send_half, sent: sent.clone() };
    let receiver = Receiver { asked: asked.clone() };
    let (client, driver, inner) = Client::from_backend(sender, receiver);
    Setup { client, driver, inner, backend, half, sent, asked }
}

impl Setup {
    /// Polls the driver once.
    fn drive(&mut self) -> (Poll<Option<Result<(), ClientDriverError<String>>>>, Vec<u32>) {
        let backend = self.backend.clone();
        let half = &self.half;
        let poll = |asked| match half.receive(&mut *backend.borrow_mut(), 0) {
            Poll::Ready(message) => Ok(message.map(Ok)),
            Poll::Pending => Err(asked),
        };
        self.driver.poll_next(&mut self.inner, poll, explain)
    }
}

fn explain(bytes: &[u8]) -> serde_json::Error {
    serde_json::Error::custom(format!("cannot decode {} bytes", bytes.len()))
}

fn json(text: &str) -> RawJson {
    RawJson::from_string(text.to_string()).unwrap()
}

fn list(values: &[&str]) -> ArrayParams {
    let mut params = ArrayParams::new();
    for value in values {
        params.insert(value, Ok(())).unwrap();
    }
    params
}

fn none() -> ArrayParams {
    ArrayParams::new()
}

fn echo(request: MockRequest) -> RawResponse<'static> {
    RawResponse::ok_from_value(request.id, request.params)
}

fn text(bytes: &[u8]) -> &str {
    std::str::from_utf8(bytes).unwrap()
}

type Polled = Poll<Result<Response, RequestError<String>>>;

#[test]
fn test_request() {
    let mut setup = mock_client();
    setup.backend.borrow_mut().handler("echo", echo);

    let server_notifications = setup.client.server_notifications();
    let mut leftovers = server_notifications.leftovers(&mut setup.inner);

    let params = list(&["1", "2", "3"]);
    let (sending, pending) = setup.client.request(&mut setup.inner, "echo", params);
    let mut pending = pending.sent(&mut setup.inner, sending).ok().unwrap();
    assert!(matches!(setup.drive().0, Poll::Ready(Some(Ok(())))));
    while let Poll::Ready(Some(item)) = leftovers.poll_next(&mut setup.inner, 1) {
        println!("Leftover: {item:?}");
    }
    let polled: Polled = pending.poll(&mut setup.inner, 2);
    let response = match polled {
        Poll::Ready(response) => response.unwrap(),
        Poll::Pending => panic!("no response"),
    };
    let res: Vec<u8> = response.ok_into(|text| serde_json::from_str(text)).unwrap();
    assert_eq!(res, vec![1, 2, 3]);
}

#[test]
fn requests_have_the_expected_form() {
    let mut setup = mock_client();
    let (_, first) = setup.client.request(&mut setup.inner, "a.b", none());
    assert_eq!(text(first.message_bytes()), r#"{"jsonrpc":"2.0","id":"1","method":"a.b"}"#);
    let (_, second) = setup.client.request(&mut setup.inner, "c", list(&["1", "\"x\""]));
    assert_eq!(
        text(second.message_bytes()),
        r#"{"jsonrpc":"2.0","id":"2","method":"c","params":[1,"x"]}"#
    );
    let mut named = ObjectParams::new();
    named.insert("k", "true", Ok(())).unwrap();
    let third = setup.client.prepare_request(&mut setup.inner, "d", named);
    assert_eq!(
        text(third.message_bytes()),
        r#"{"jsonrpc":"2.0","id":"3","method":"d","params":{"k":true}}"#
    );
    assert_eq!(setup.client.next_number(), 4);
    assert_eq!(setup.sent.borrow().len(), 2);
    assert_eq!(setup.sent.borrow()[1], second.message_bytes());
    setup.client.send_request(&third).unwrap();
    assert_eq!(setup.sent.borrow()[2], third.message_bytes());
}

#[test]
fn the_tenth_request_has_two_digits() {
    let mut setup = mock_client();
    for _ in 0..9 {
        let (_, pending) = setup.client.request(&mut setup.inner, "x", none());
        pending.close(&mut setup.inner);
    }
    let (_, tenth) = setup.client.request(&mut setup.inner, "x", none());
    assert_eq!(text(tenth.message_bytes()), r#"{"jsonrpc":"2.0","id":"10","method":"x"}"#);
}

#[test]
fn notifications_have_the_expected_form() {
    let mut setup = mock_client();
    setup.client.notification("hello", none()).unwrap();
    setup.client.notification("hello", list(&["null"])).unwrap();
    let sent = setup.sent.borrow();
    assert_eq!(text(&sent[0]), r#"{"jsonrpc":"2.0","method":"hello"}"#);
    assert_eq!(text(&sent[1]), r#"{"jsonrpc":"2.0","method":"hello","params":[null]}"#);
}

#[test]
fn what_is_sent_is_read_back() {
    let mut setup = mock_client();
    let (_, pending) = setup.client.request(&mut setup.inner, "größe", list(&["7"]));
    let request = MockRequest::from_slice(pending.message_bytes()).unwrap();
    assert_eq!(request.jsonrpc, "2.0");
    assert_eq!(request.id, Some("1".to_string()));
    assert_eq!(request.method, "größe");
    assert_eq!(request.params.get(), "[7]");
    setup.client.notification("size", none()).unwrap();
    let told = MockRequest::from_slice(&setup.sent.borrow()[1]).unwrap();
    assert_eq!(told.id, None);
    assert_eq!(told.method, "size");
    assert_eq!(told.params.get(), "null");
}

#[test]
fn a_method_that_needs_escapes_is_escaped() {
    let mut setup = mock_client();
    let (_, pending) = setup.client.request(&mut setup.inner, "a\"b", none());
    assert_eq!(
        text(pending.message_bytes()),
        "{\"jsonrpc\":\"2.0\",\"id\":\"1\",\"method\":\"a\\\"b\"}"
    );
    let request = MockRequest::from_slice(pending.message_bytes()).unwrap();
    assert_eq!(request.jsonrpc, "2.0");
    assert_eq!(request.id, Some("1".to_string()));
    assert_eq!(request.method, "a\"b");
    let method = "\\ \u{8}\t\n\u{c}\r\u{0}\u{1f}\u{7f}/\u{e4}\u{1f600}";
    setup.client.notification(method, list(&["1"])).unwrap();
    let told = MockRequest::from_slice(&setup.sent.borrow()[1]).unwrap();
    assert_eq!(told.method, method);
    assert_eq!(told.id, None);
    assert_eq!(told.params.get(), "[1]");
}

#[test]
fn a_request_that_could_not_be_sent_is_over() {
    let mut setup = mock_client();
    let pending = setup.client.prepare_request(&mut setup.inner, "x", none());
    let outcome = Err("unplugged".to_string());
    match pending.sent(&mut setup.inner, outcome) {
        Err(RequestError::Backend(error)) => assert_eq!(error, "unplugged"),
        _ => panic!("no error"),
    }
    let (_, next) = setup.client.request(&mut setup.inner, "x", none());
    assert_eq!(text(next.message_bytes()), r#"{"jsonrpc":"2.0","id":"2","method":"x"}"#);
}

#[test]
fn replies_reach_their_requests_in_any_order() {
    let mut setup = mock_client();
    let (_, mut first) = setup.client.request(&mut setup.inner, "slow", none());
    let (_, mut second) = setup.client.request(&mut setup.inner, "slow", none());
    // Nothing handles the method: take those two answers away.
    setup.drive();
    setup.drive();
    let gone: Polled = first.poll(&mut setup.inner, 1);
    assert!(matches!(gone, Poll::Ready(Ok(_))));
    let gone: Polled = second.poll(&mut setup.inner, 2);
    assert!(matches!(gone, Poll::Ready(Ok(_))));
    let waiting: Polled = first.poll(&mut setup.inner, 1);
    assert!(matches!(waiting, Poll::Pending));
    let waiting: Polled = second.poll(&mut setup.inner, 2);
    assert!(matches!(waiting, Poll::Pending));

    setup.backend.borrow_mut().send_ok_response(Some("2".to_string()), json("22"));
    setup.backend.borrow_mut().send_ok_response(Some("1".to_string()), json("11"));
    assert_eq!(setup.drive().1, vec![2]);
    let waiting: Polled = first.poll(&mut setup.inner, 1);
    assert!(matches!(waiting, Poll::Pending));
    assert_eq!(setup.drive().1, vec![1]);
    let polled: Polled = first.poll(&mut setup.inner, 1);
    let Poll::Ready(Ok(response)) = polled else { panic!("no response") };
    assert_eq!(response.ok_into(|text| serde_json::from_str::<u8>(text)).unwrap(), 11);
    let polled: Polled = second.poll(&mut setup.inner, 2);
    let Poll::Ready(Ok(response)) = polled else { panic!("no response") };
    assert_eq!(response.ok_into(|text| serde_json::from_str::<u8>(text)).unwrap(), 22);
}

#[test]
fn an_unknown_method_is_answered_with_an_error() {
    let mut setup = mock_client();
    let (_, mut pending) = setup.client.request(&mut setup.inner, "nope", none());
    setup.drive();
    let polled: Polled = pending.poll(&mut setup.inner, 1);
    let Poll::Ready(Ok(response)) = polled else { panic!("no response") };
    assert!(matches!(
        response.ok_into(|text| serde_json::from_str::<u8>(text)),
        Err(ResponseError::WrongResponse)
    ));
    let error = response.error_into(|text| serde_json::from_str::<()>(text)).ok().unwrap();
    assert_eq!(error.code, -32601);
    assert_eq!(error.message, "No method named 'nope'");
}

#[test]
fn a_request_fails_once_the_connection_is_closed() {
    let mut setup = mock_client();
    let (_, mut pending) = setup.client.request(&mut setup.inner, "nope", none());
    setup.backend.borrow_mut().shutdown();
    // The answer that was sent before comes first.
    assert!(matches!(setup.drive().0, Poll::Ready(Some(Ok(())))));
    assert!(matches!(setup.drive().0, Poll::Ready(None)));
    assert!(matches!(setup.drive().0, Poll::Ready(None)));
    let polled: Polled = pending.poll(&mut setup.inner, 1);
    assert!(matches!(polled, Poll::Ready(Ok(_))));
    let polled: Polled = pending.poll(&mut setup.inner, 1);
    assert!(matches!(polled, Poll::Ready(Err(RequestError::ConnectionClosed))));
}

#[test]
fn dropping_the_driver_ends_requests() {
    let mut setup = mock_client();
    let (_, mut pending) = setup.client.request(&mut setup.inner, "x", none());
    let polled: Polled = pending.poll(&mut setup.inner, 1);
    assert!(matches!(polled, Poll::Pending));
    assert_eq!(setup.driver.close(&mut setup.inner), vec![1]);
    let polled: Polled = pending.poll(&mut setup.inner, 1);
    assert!(matches!(polled, Poll::Ready(Err(RequestError::ConnectionClosed))));
}

#[test]
fn who_waits_is_woken_when_the_connection_closes() {
    let mut setup = mock_client();
    let mut first = setup.client.prepare_request(&mut setup.inner, "x", none());
    let mut second = setup.client.prepare_request(&mut setup.inner, "x", none());
    let mut all = setup.client.server_notifications().all(&mut setup.inner);
    let polled: Polled = first.poll(&mut setup.inner, 1);
    assert!(matches!(polled, Poll::Pending));
    assert!(matches!(all.poll_next(&mut setup.inner, 3), Poll::Pending));
    setup.backend.borrow_mut().shutdown();
    let (polled, wakers) = setup.drive();
    assert!(matches!(polled, Poll::Ready(None)));
    assert_eq!(wakers, vec![1, 3]);
    assert!(setup.drive().1.is_empty());
    for pending in [&mut first, &mut second] {
        let polled: Polled = pending.poll(&mut setup.inner, 1);
        assert!(matches!(polled, Poll::Ready(Err(RequestError::ConnectionClosed))));
    }
    assert!(matches!(all.poll_next(&mut setup.inner, 3), Poll::Ready(None)));
}

#[test]
fn nothing_is_taken_without_polling() {
    let mut setup = mock_client();
    let mut all = setup.client.server_notifications().all(&mut setup.inner);
    for number in ["1", "2", "3"] {
        setup.backend.borrow_mut().send_ok_notification(json(number));
    }
    assert_eq!(*setup.asked.borrow(), 0);
    assert!(matches!(all.poll_next(&mut setup.inner, 1), Poll::Pending));
    setup.drive();
    setup.drive();
    assert_eq!(*setup.asked.borrow(), 2);
    assert!(matches!(all.poll_next(&mut setup.inner, 1), Poll::Ready(Some(_))));
    assert!(matches!(all.poll_next(&mut setup.inner, 1), Poll::Ready(Some(_))));
    assert!(matches!(all.poll_next(&mut setup.inner, 1), Poll::Pending));
}

#[test]
fn a_message_that_has_not_come_is_waited_for_again() {
    let mut setup = mock_client();
    assert!(matches!(setup.drive().0, Poll::Pending));
    assert!(matches!(setup.drive().0, Poll::Pending));
    assert_eq!(*setup.asked.borrow(), 1);
    setup.backend.borrow_mut().send_ok_notification(json("1"));
    assert!(matches!(setup.drive().0, Poll::Ready(Some(Ok(())))));
    assert!(matches!(setup.drive().0, Poll::Pending));
    assert_eq!(*setup.asked.borrow(), 2);
}

#[test]
fn the_driver_can_be_driven_step_by_step() {
    let mut setup = mock_client();
    let NextMessage::Message(first) = setup.driver.next_message() else { panic!("finished") };
    assert_eq!(first, 1);
    setup.driver.not_ready(first);
    let NextMessage::Message(again) = setup.driver.next_message() else { panic!("finished") };
    assert_eq!(again, 1);
    let message = br#"{"jsonrpc":"2.0","id":null,"result":5}"#.to_vec();
    let message = Some(Ok::<_, String>(message));
    let (outcome, wakers) = setup.driver.received(&mut setup.inner, message, explain);
    assert!(matches!(outcome, Some(Ok(()))));
    assert!(wakers.is_empty());
    let failed = Some(Err("broken".to_string()));
    let (outcome, _) = setup.driver.received(&mut setup.inner, failed, explain);
    match outcome {
        Some(Err(error)) => {
            assert!(error.is_fatal());
            assert!(matches!(error, ResponseStreamError::BackendError(e) if e == "broken"));
        }
        _ => panic!("no error"),
    }
    assert!(matches!(setup.driver.next_message(), NextMessage::Finished));
    assert!(matches!(setup.drive().0, Poll::Ready(None)));
}

#[test]
fn a_message_that_cannot_be_decoded_stops_nothing() {
    let mut setup = mock_client();
    let mut everything = setup.client.server_notifications().all(&mut setup.inner);
    setup.backend.borrow_mut().send_bytes(b"nonsense".to_vec());
    setup.backend.borrow_mut().send_bytes(br#"{"jsonrpc":"1.0","result":5}"#.to_vec());
    setup.backend.borrow_mut().send_ok_notification(json("1"));
    for _ in 0..2 {
        match setup.drive().0 {
            Poll::Ready(Some(Err(error))) => assert!(!error.is_fatal()),
            _ => panic!("no error"),
        }
    }
    assert!(matches!(setup.drive().0, Poll::Ready(Some(Ok(())))));
    assert!(matches!(everything.poll_next(&mut setup.inner, 1), Poll::Ready(Some(_))));
    assert!(matches!(everything.poll_next(&mut setup.inner, 1), Poll::Pending));
}

#[test]
fn notification_streams_take_what_they_are_made_for() {
    let mut setup = mock_client();
    let notifications = setup.client.server_notifications();
    let mut all = notifications.all(&mut setup.inner);
    let wants_errors: FilterFn = |message| matches!(message, RawResponse::Error(_));
    let mut errors = notifications.with_filter(&mut setup.inner, wants_errors);
    let mut leftovers = notifications.leftovers(&mut setup.inner);

    setup.backend.borrow_mut().send_ok_notification(json("1"));
    setup.backend.borrow_mut().send_ok_response(Some("77".to_string()), json("2"));
    setup.backend.borrow_mut().send_bytes(
        br#"{"jsonrpc":"2.0","error":{"code":3,"message":"m"}}"#.to_vec(),
    );
    setup.backend.borrow_mut().send_bytes(
        br#"{"jsonrpc":"2.0","id":"5","error":{"code":4,"message":"m"}}"#.to_vec(),
    );
    for _ in 0..4 {
        assert!(matches!(setup.drive().0, Poll::Ready(Some(Ok(())))));
    }

    let Poll::Ready(Some(item)) = all.poll_next(&mut setup.inner, 1) else { panic!("nothing") };
    assert_eq!(item.ok_into(|text| serde_json::from_str::<u8>(text)).unwrap(), 1);
    let Poll::Ready(Some(item)) = all.poll_next(&mut setup.inner, 1) else { panic!("nothing") };
    assert!(matches!(item.raw(), RawResponse::Error(e) if e.error.code == 3));
    assert!(matches!(all.poll_next(&mut setup.inner, 1), Poll::Pending));

    let Poll::Ready(Some(item)) = errors.poll_next(&mut setup.inner, 2) else { panic!("nothing") };
    assert!(matches!(item.raw(), RawResponse::Error(e) if e.error.code == 3));
    assert!(matches!(errors.poll_next(&mut setup.inner, 2), Poll::Pending));

    assert!(matches!(leftovers.poll_next(&mut setup.inner, 3), Poll::Pending));
    all.close(&mut setup.inner);
    setup.backend.borrow_mut().send_ok_notification(json("6"));
    setup.backend.borrow_mut().send_ok_response(Some("78".to_string()), json("7"));
    assert_eq!(setup.drive().1, vec![3]);
    assert!(setup.drive().1.is_empty());
    let Poll::Ready(Some(item)) = leftovers.poll_next(&mut setup.inner, 3) else {
        panic!("nothing")
    };
    assert_eq!(item.ok_into(|text| serde_json::from_str::<u8>(text)).unwrap(), 6);
    assert!(matches!(leftovers.poll_next(&mut setup.inner, 3), Poll::Pending));
    errors.close(&mut setup.inner);
    setup.backend.borrow_mut().send_ok_notification(json("1"));
    assert_eq!(setup.drive().1, vec![3]);
}
