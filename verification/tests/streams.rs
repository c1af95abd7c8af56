//! The streams of messages and what drives them.
use serde::de::Error;
use std::sync::Arc;
use thin_jsonrpc_client::backend::BackendReceiver;
use thin_jsonrpc_client::json::RawJson;
use thin_jsonrpc_client::raw_response::{RawResponse, ResponseError};
use thin_jsonrpc_client::response_stream::{
    Filter, Poll, ResponseStream, ResponseStreamError, ResponseStreamHandle, ResponseStreamInner,
    ResponseStreamItem, ResponseStreamMaster,
};

type FilterFn = fn(&RawResponse<'_>) -> bool;
type Inner = ResponseStreamInner<u32, FilterFn>;

struct Receiver;

impl BackendReceiver for Receiver {
    type Receiving = ();

    fn receive(&self) {}
}

fn setup() -> (ResponseStreamMaster<Receiver>, Inner, ResponseStreamHandle) {
    let (master, inner) = ResponseStreamMaster::new(Receiver);
    let handle = master.handle();
    (master, inner, handle)
}

fn message(id: Option<&str>, result: &str) -> ResponseStreamItem {
    let value = RawJson::from_string(result.to_string()).unwrap();
    Arc::new(RawResponse::ok_from_value(id.map(|id| id.to_string()), value))
}

fn result(item: &RawResponse<'_>) -> String {
    match item {
        RawResponse::Success(ok) => ok.result.get().to_string(),
        RawResponse::Error(_) => panic!("no result"),
    }
}

fn explain(bytes: &[u8]) -> serde_json::Error {
    serde_json::Error::custom(format!("cannot decode {} bytes", bytes.len()))
}

/// Takes all that a stream emits before it waits or ends.
fn drain(stream: &mut ResponseStream, inner: &mut Inner, waker: u32) -> (Vec<String>, bool) {
    let mut items = Vec::new();
    loop {
        match stream.poll_next(inner, waker) {
            Poll::Ready(Some(item)) => items.push(result(&item)),
            Poll::Ready(None) => return (items, true),
            Poll::Pending => return (items, false),
        }
    }
}

#[test]
fn streams_emit_in_order() {
    let (_master, mut inner, handle) = setup();
    let mut stream = handle.response_stream(&mut inner);
    inner.broadcast(message(None, "1"));
    inner.broadcast(message(Some("x"), "2"));
    assert!(matches!(stream.poll_next(&mut inner, 9), Poll::Ready(Some(_))));
    inner.broadcast(message(None, "3"));
    let (items, ended) = drain(&mut stream, &mut inner, 9);
    assert_eq!(items, vec!["2", "3"]);
    assert!(!ended);
}

#[test]
fn streams_are_drained_before_they_end() {
    let (_master, mut inner, handle) = setup();
    let mut stream = handle.response_stream(&mut inner);
    inner.broadcast(message(None, "1"));
    inner.broadcast(message(None, "2"));
    inner.finish();
    assert_eq!(drain(&mut stream, &mut inner, 1), (vec!["1".to_string(), "2".to_string()], true));
    assert_eq!(drain(&mut stream, &mut inner, 1), (vec![], true));
    let mut late = handle.response_stream(&mut inner);
    assert_eq!(drain(&mut late, &mut inner, 1), (vec![], true));
}

#[test]
fn clones_get_the_same_messages() {
    let (_master, mut inner, handle) = setup();
    let mut stream = handle.with_filter(&mut inner, Filter::Reply("7".to_string()));
    inner.broadcast(message(Some("7"), "1"));
    inner.broadcast(message(Some("7"), "2"));
    inner.broadcast(message(Some("7"), "3"));
    assert!(matches!(stream.poll_next(&mut inner, 1), Poll::Ready(Some(_))));
    inner.broadcast(message(Some("7"), "4"));
    let mut copy = stream.clone(&mut inner);
    inner.broadcast(message(Some("8"), "5"));
    inner.broadcast(message(Some("7"), "6"));
    let expected: Vec<String> = ["2", "3", "4", "6"].iter().map(|s| s.to_string()).collect();
    assert_eq!(drain(&mut stream, &mut inner, 1).0, expected);
    assert_eq!(drain(&mut copy, &mut inner, 2).0, expected);
}

#[test]
fn streams_that_wait_are_woken_once() {
    let (_master, mut inner, handle) = setup();
    let mut first = handle.response_stream(&mut inner);
    let mut second = handle.response_stream(&mut inner);
    let mut third = handle.with_filter(&mut inner, Filter::Reply("z".to_string()));
    assert!(matches!(first.poll_next(&mut inner, 1), Poll::Pending));
    assert!(matches!(second.poll_next(&mut inner, 2), Poll::Pending));
    assert!(matches!(second.poll_next(&mut inner, 22), Poll::Pending));
    assert!(matches!(third.poll_next(&mut inner, 3), Poll::Pending));
    assert_eq!(inner.broadcast(message(None, "1")), vec![1, 22]);
    assert!(inner.broadcast(message(None, "2")).is_empty());
    assert_eq!(inner.broadcast(message(Some("z"), "3")), vec![3]);
}

#[test]
fn a_closed_stream_is_gone() {
    let (_master, mut inner, handle) = setup();
    let mut first = handle.response_stream(&mut inner);
    let mut second = handle.response_stream(&mut inner);
    assert!(matches!(first.poll_next(&mut inner, 1), Poll::Pending));
    assert!(matches!(second.poll_next(&mut inner, 2), Poll::Pending));
    first.close(&mut inner);
    assert_eq!(inner.broadcast(message(None, "1")), vec![2]);
    assert_eq!(drain(&mut second, &mut inner, 2).0, vec!["1"]);
    assert!(inner.has_room());
}

#[test]
fn leftovers_are_what_no_other_stream_takes() {
    let (_master, mut inner, handle) = setup();
    let mut first = handle.leftovers(&mut inner);
    let mut second = handle.leftovers(&mut inner);
    let mut reply = handle.with_filter(&mut inner, Filter::Reply("1".to_string()));
    inner.broadcast(message(Some("1"), "1"));
    inner.broadcast(message(Some("2"), "2"));
    inner.broadcast(message(None, "3"));
    assert_eq!(drain(&mut first, &mut inner, 1).0, vec!["3"]);
    assert_eq!(drain(&mut second, &mut inner, 1).0, vec!["3"]);
    assert_eq!(drain(&mut reply, &mut inner, 1).0, vec!["1"]);
    let mut all = handle.response_stream(&mut inner);
    inner.broadcast(message(None, "4"));
    assert_eq!(drain(&mut all, &mut inner, 1).0, vec!["4"]);
    assert_eq!(drain(&mut first, &mut inner, 1).0, Vec::<String>::new());
}

#[test]
fn filters_are_asked_about_notifications_only() {
    let (_master, mut inner, handle) = setup();
    let everything: FilterFn = |_| true;
    let nothing: FilterFn = |_| false;
    let mut some = handle.with_filter(&mut inner, Filter::Matching(Arc::new(everything)));
    let mut none = handle.with_filter(&mut inner, Filter::Matching(Arc::new(nothing)));
    let mut all = handle.with_filter(&mut inner, Filter::Notifications);
    inner.broadcast(message(Some("1"), "1"));
    inner.broadcast(message(None, "2"));
    assert_eq!(drain(&mut some, &mut inner, 1).0, vec!["2"]);
    assert_eq!(drain(&mut none, &mut inner, 1).0, Vec::<String>::new());
    assert_eq!(drain(&mut all, &mut inner, 1).0, vec!["2"]);
}

#[test]
fn answers_decide_who_gets_a_message() {
    let (_master, mut inner, handle) = setup();
    let mut first = handle.response_stream(&mut inner);
    let mut second = handle.response_stream(&mut inner);
    let mut leftovers = handle.leftovers(&mut inner);
    inner.deliver(message(None, "1"), &vec![false, true, false]);
    inner.deliver(message(None, "2"), &vec![false, false, false]);
    inner.deliver(message(Some("1"), "3"), &vec![false, false, false]);
    assert_eq!(drain(&mut first, &mut inner, 1).0, Vec::<String>::new());
    assert_eq!(drain(&mut second, &mut inner, 1).0, vec!["1"]);
    assert_eq!(drain(&mut leftovers, &mut inner, 1).0, vec!["2"]);
}

#[test]
fn the_master_hands_back_what_it_broadcast() {
    let (mut master, mut inner, handle) = setup();
    let mut stream = handle.response_stream(&mut inner);
    let bytes = br#"{"jsonrpc":"2.0","id":"a","result":[1]}"#.to_vec();
    let message = Some(Ok::<_, String>(bytes));
    let (polled, wakers) = master.poll_next(&mut inner, |_| Ok(message), explain);
    assert!(wakers.is_empty());
    let Poll::Ready(Some(Ok(item))) = polled else { panic!("no message") };
    assert_eq!(item.id(), Some("a"));
    assert_eq!(drain(&mut stream, &mut inner, 1).0, vec!["[1]"]);
}

#[test]
fn errors_of_the_master_say_what_is_wrong() {
    let (mut master, mut inner, _handle) = setup();
    let message = Some(Ok::<_, String>(b"[".to_vec()));
    let (polled, _) = master.poll_next(&mut inner, |_| Ok(message), explain);
    match polled {
        Poll::Ready(Some(Err(ResponseStreamError::Response(ResponseError::Deserialize {
            error,
            bytes,
        })))) => {
            assert_eq!(error.to_string(), "cannot decode 1 bytes");
            assert_eq!(bytes, b"[");
        }
        _ => panic!("no error"),
    }
    let failed = Some(Err("gone".to_string()));
    let (polled, _) = master.poll_next(&mut inner, |_| Ok(failed), explain);
    let Poll::Ready(Some(Err(error))) = polled else { panic!("no error") };
    assert!(error.is_fatal());
    assert!(inner.finish().is_empty());
    let failed = Some(Err("again".to_string()));
    let (polled, _) = master.poll_next(&mut inner, |_| Ok(failed), explain);
    assert!(matches!(polled, Poll::Ready(None)));
}

#[test]
fn dropping_the_master_ends_the_streams() {
    let (master, mut inner, handle) = setup();
    let mut stream = handle.response_stream(&mut inner);
    let mut waiting = handle.with_filter(&mut inner, Filter::Reply("z".to_string()));
    assert!(matches!(waiting.poll_next(&mut inner, 5), Poll::Pending));
    inner.broadcast(message(None, "1"));
    assert_eq!(master.close(&mut inner), vec![5]);
    assert_eq!(drain(&mut waiting, &mut inner, 5), (vec![], true));
    assert_eq!(drain(&mut stream, &mut inner, 1), (vec!["1".to_string()], true));
}

#[test]
fn streams_that_wait_with_one_waker_are_each_woken() {
    let (_master, mut inner, handle) = setup();
    let mut first = handle.response_stream(&mut inner);
    let mut second = handle.response_stream(&mut inner);
    assert!(matches!(first.poll_next(&mut inner, 1), Poll::Pending));
    assert!(matches!(second.poll_next(&mut inner, 1), Poll::Pending));
    assert_eq!(inner.broadcast(message(None, "1")), vec![1, 1]);
    drain(&mut first, &mut inner, 2);
    drain(&mut second, &mut inner, 2);
    assert_eq!(inner.finish(), vec![2, 2]);
}

#[test]
fn what_a_stream_emits_is_a_prefix_of_what_was_broadcast() {
    let (_master, mut inner, handle) = setup();
    inner.broadcast(message(None, "0"));
    let mut stream = handle.response_stream(&mut inner);
    let mut emitted = Vec::new();
    let mut sent = Vec::new();
    for round in 0..6 {
        let number = format!("{round}");
        inner.broadcast(message(None, &number));
        sent.push(number);
        let mut other = handle.with_filter(&mut inner, Filter::Notifications);
        if round % 2 == 1 {
            match stream.poll_next(&mut inner, 1) {
                Poll::Ready(Some(item)) => emitted.push(result(&item)),
                _ => panic!("nothing"),
            }
        }
        assert!(matches!(other.poll_next(&mut inner, 2), Poll::Pending));
        other.close(&mut inner);
        assert!(sent.starts_with(&emitted));
    }
    assert_eq!(emitted, vec!["0", "1", "2"]);
    inner.finish();
    emitted.extend(drain(&mut stream, &mut inner, 1).0);
    assert_eq!(emitted, sent);
}

#[test]
fn what_streams_share_can_be_looked_at() {
    let (_master, mut inner, handle) = setup();
    let mut stream = handle.response_stream(&mut inner);
    let _other = handle.leftovers(&mut inner);
    assert!(matches!(stream.poll_next(&mut inner, 7), Poll::Pending));
    assert_eq!(inner.next_number(), 3);
    assert!(!inner.is_done());
    assert_eq!(inner.instances()[0].number(), 1);
    assert_eq!(inner.instances()[0].waker(), Some(&7));
    assert_eq!(inner.instances()[1].waker(), None);
    inner.broadcast(message(Some("1"), "5"));
    assert_eq!(inner.instances()[0].waker(), None);
    assert_eq!(result(&inner.instances()[0].queue()[0]), "5");
    assert!(inner.instances()[1].queue().is_empty());
    inner.finish();
    assert!(inner.is_done());
}
