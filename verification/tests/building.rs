//! Building parameters, and the mock backend by itself.
use serde::ser::Error;
use serde::{Serialize, Serializer};
use std::collections::BTreeMap;
use thin_jsonrpc_client::backend::mock::{build, MockBackend, MockRequest, SendOutcome};
use thin_jsonrpc_client::json::RawJson;
use thin_jsonrpc_client::params::{ArrayParams, IntoRpcParams, ObjectParams};
use thin_jsonrpc_client::response_stream::Poll;
use thin_jsonrpc_client::text::{decimal_text, same_text, signed_decimal_text};

fn json(text: &str) -> RawJson {
    RawJson::from_string(text.to_string()).unwrap()
}

/// Serializes a value: what has been written of it, and what came of that.
fn write<P: Serialize>(value: &P) -> (String, Result<(), serde_json::Error>) {
    let mut bytes = Vec::new();
    let outcome = serde_json::to_writer(&mut bytes, value);
    (String::from_utf8(bytes).unwrap(), outcome)
}

/// A value that writes nothing.
struct Nothing;

impl Serialize for Nothing {
    fn serialize<S: Serializer>(&self, _serializer: S) -> Result<S::Ok, S::Error> {
        Err(S::Error::custom("nothing"))
    }
}

/// A value that writes all of itself and then fails.
struct Whole;

impl Serialize for Whole {
    fn serialize<S: Serializer>(&self, serializer: S) -> Result<S::Ok, S::Error> {
        serializer.serialize_u8(5)?;
        Err(S::Error::custom("whole"))
    }
}

/// A value that writes part of itself: its keys are no strings.
fn part() -> BTreeMap<Vec<u8>, u8> {
    BTreeMap::from([(vec![1], 2)])
}

fn name<P: Serialize>(builder: &mut ObjectParams, name: &str, value: &P) -> bool {
    let (written, outcome) = write(value);
    builder.insert(name, &written, outcome).is_ok()
}

fn add<P: Serialize>(builder: &mut ArrayParams, value: &P) -> bool {
    let (written, outcome) = write(value);
    builder.insert(&written, outcome).is_ok()
}

#[test]
fn numbers_are_written_in_base_ten() {
    assert_eq!(decimal_text(0), "0");
    assert_eq!(decimal_text(9), "9");
    assert_eq!(decimal_text(10), "10");
    assert_eq!(decimal_text(u64::MAX), "18446744073709551615");
    assert_eq!(signed_decimal_text(-32700), "-32700");
    assert_eq!(signed_decimal_text(5), "5");
    assert!(same_text("a\u{e4}", "a\u{e4}"));
    assert!(!same_text("a", "ab"));
    assert!(!same_text("a", "b"));
}

#[test]
fn named_parameters_make_up_an_object() {
    let mut builder = ObjectParams::new();
    assert!(name(&mut builder, "param1", &1));
    assert!(name(&mut builder, "par\"am\n2", &"abc"));
    let params = builder.build().unwrap();
    assert_eq!(params.get(), r#"{"param1":1,"par\"am\n2":"abc"}"#);
}

#[test]
fn unnamed_parameters_make_up_an_array() {
    let mut builder = ArrayParams::new();
    assert!(add(&mut builder, &"param1"));
    assert!(add(&mut builder, &1));
    assert!(builder.insert("[ ]", Ok(())).is_ok());
    assert_eq!(builder.into_rpc_params().unwrap().get(), r#"["param1",1,[ ]]"#);
}

#[test]
fn no_parameters_make_up_nothing() {
    assert!(ObjectParams::new().build().is_none());
    assert!(ArrayParams::new().build().is_none());
    assert!(ObjectParams::new().into_rpc_params().is_none());
    assert!(None::<RawJson>.into_rpc_params().is_none());
    assert_eq!(Some(json("[1]")).into_rpc_params().unwrap().get(), "[1]");
}

#[test]
fn parameters_that_write_nothing_leave_a_gap() {
    let mut builder = ObjectParams::new();
    assert!(!name(&mut builder, "a", &Nothing));
    assert!(name(&mut builder, "b", &1));
    assert!(builder.try_build().is_none());

    let mut builder = ArrayParams::new();
    assert!(add(&mut builder, &1));
    assert!(!add(&mut builder, &Nothing));
    assert!(builder.try_build().is_none());

    let mut builder = ArrayParams::new();
    assert!(!add(&mut builder, &Nothing));
    assert!(!add(&mut builder, &Nothing));
    assert!(builder.try_build().is_none());
}

#[test]
fn a_sole_parameter_that_writes_nothing_leaves_an_empty_array() {
    let mut builder = ArrayParams::new();
    assert!(!add(&mut builder, &Nothing));
    assert_eq!(builder.build().unwrap().get(), "[]");
    let mut builder = ObjectParams::new();
    assert!(!name(&mut builder, "a", &Nothing));
    assert!(builder.try_build().is_none());
}

#[test]
fn a_parameter_that_writes_part_of_itself_cannot_be_built() {
    assert_eq!(write(&part()).0, "{");
    let mut builder = ArrayParams::new();
    assert!(!add(&mut builder, &part()));
    assert!(builder.try_build().is_none());
    let mut builder = ObjectParams::new();
    assert!(!name(&mut builder, "a", &part()));
    assert!(builder.try_build().is_none());
}

#[test]
fn a_parameter_that_writes_all_of_itself_is_kept() {
    let mut builder = ArrayParams::new();
    assert!(!add(&mut builder, &Whole));
    assert!(add(&mut builder, &true));
    assert_eq!(builder.build().unwrap().get(), "[5,true]");
    let mut builder = ObjectParams::new();
    let (written, outcome) = write(&Whole);
    let error = builder.insert("a", &written, outcome).unwrap_err();
    assert_eq!(error.to_string(), "whole");
    assert_eq!(builder.try_build().unwrap().unwrap().get(), r#"{"a":5}"#);
}

fn received(polled: Poll<Option<Vec<u8>>>) -> String {
    match polled {
        Poll::Ready(Some(bytes)) => String::from_utf8(bytes).unwrap(),
        other => panic!("{other:?}"),
    }
}

#[test]
fn the_mock_delivers_in_order() {
    let (mut backend, _sender, receiver): (MockBackend<u8, u32>, _, _) = build();
    assert_eq!(backend.send_bytes(b"a".to_vec()), None);
    assert_eq!(backend.send_bytes(b"b".to_vec()), None);
    assert_eq!(received(receiver.receive(&mut backend, 1)), "a");
    assert_eq!(received(receiver.receive(&mut backend, 1)), "b");
    assert!(matches!(receiver.receive(&mut backend, 1), Poll::Pending));
    assert!(matches!(receiver.receive(&mut backend, 2), Poll::Pending));
    assert_eq!(backend.send_ok_notification(json("1")), Some(2));
    assert_eq!(backend.send_ok_response(Some("5".to_string()), json("1")), None);
    assert_eq!(
        received(receiver.receive(&mut backend, 1)),
        r#"{"jsonrpc":"2.0","id":null,"result":1}"#
    );
    assert_eq!(
        received(receiver.receive(&mut backend, 1)),
        r#"{"jsonrpc":"2.0","id":"5","result":1}"#
    );
}

#[test]
fn the_mock_is_drained_after_a_shutdown() {
    let (mut backend, sender, receiver): (MockBackend<u8, u32>, _, _) = build();
    assert!(matches!(receiver.receive(&mut backend, 1), Poll::Pending));
    backend.send_bytes(b"a".to_vec());
    assert!(backend.shutdown().is_none());
    assert_eq!(backend.send_bytes(b"b".to_vec()), None);
    assert_eq!(received(receiver.receive(&mut backend, 1)), "a");
    assert!(matches!(receiver.receive(&mut backend, 1), Poll::Ready(None)));
    assert_eq!(sender.close(&mut backend), None);
    assert!(matches!(receiver.receive(&mut backend, 1), Poll::Ready(None)));
}

#[test]
fn the_end_of_the_sender_wakes_the_receiver() {
    let (mut backend, sender, receiver): (MockBackend<u8, u32>, _, _) = build();
    assert!(matches!(receiver.receive(&mut backend, 8), Poll::Pending));
    assert_eq!(sender.close(&mut backend), Some(8));
    assert!(matches!(receiver.receive(&mut backend, 1), Poll::Ready(None)));
}

#[test]
fn the_last_handler_of_a_method_counts() {
    let (mut backend, sender, _receiver): (MockBackend<u8, u32>, _, _) = build();
    backend.handler("a", 1);
    backend.handler("b", 2);
    backend.handler("a", 3);
    for (message, handler) in [
        (&br#"{"jsonrpc":"2.0","id":"1","method":"a"}"#[..], 3),
        (&br#"{"jsonrpc":"2.0","id":"1","method":"b"}"#[..], 2),
    ] {
        match sender.send(&mut backend, message) {
            SendOutcome::Handle(found, request) => {
                assert_eq!(*found, handler);
                assert_eq!(request.id, Some("1".to_string()));
            }
            _ => panic!("no handler"),
        }
    }
}

#[test]
fn the_mock_refuses_what_it_cannot_handle() {
    let (mut backend, sender, receiver): (MockBackend<u8, u32>, _, _) = build();
    backend.handler("a", 1);
    assert!(matches!(receiver.receive(&mut backend, 4), Poll::Pending));
    let outcome = sender.send(&mut backend, br#"{"jsonrpc":"1.1","id":"3","method":"a"}"#);
    assert!(matches!(outcome, SendOutcome::Refused(Some(4))));
    assert_eq!(
        received(receiver.receive(&mut backend, 4)),
        "{\"jsonrpc\":\"2.0\",\"id\":\"3\",\"error\":{\"code\":-32700,\"message\":\
         \"\\\"jsonrpc\\\" field was not equal to \\\"2.0\\\", was 1.1\",\"data\":null}}"
    );
    let outcome = sender.send(&mut backend, br#"{"jsonrpc":"2.0","method":"x"}"#);
    assert!(matches!(outcome, SendOutcome::Refused(None)));
    assert_eq!(
        received(receiver.receive(&mut backend, 4)),
        r#"{"jsonrpc":"2.0","id":null,"error":{"code":-32601,"message":"No method named 'x'","data":null}}"#
    );
    let outcome = sender.send(&mut backend, b"what?");
    assert!(matches!(outcome, SendOutcome::Undecodable));
    let outcome = sender.try_send(&mut backend, b"what?");
    assert!(matches!(outcome, Some(SendOutcome::Undecodable)));
    assert!(sender.try_send(&mut backend, b"\xff").is_none());
    let odd = b"{\"jsonrpc\":\"2.0\",\"method\":\"a\",\"x\":\"\xff\"}";
    assert!(matches!(sender.try_send(&mut backend, odd), Some(SendOutcome::Handle(_, _))));
    assert!(matches!(receiver.receive(&mut backend, 4), Poll::Pending));
}

#[test]
fn requests_are_decoded() {
    let request =
        MockRequest::from_slice(br#"{"params":{"a":1},"method":"m","jsonrpc":"2.0","id":"i"}"#);
    let request = request.unwrap().clone();
    assert_eq!(request.jsonrpc, "2.0");
    assert_eq!(request.id, Some("i".to_string()));
    assert_eq!(request.method, "m");
    assert_eq!(request.params.get(), "{\"a\":1}");
    let request = MockRequest::from_slice(br#"["2.0",null,"m"]"#).unwrap();
    assert_eq!(request.params.get(), "null");
    assert_eq!(MockRequest::from_slice(br#"["2.0",null,"m",5]"#).unwrap().params.get(), "5");
    assert!(MockRequest::from_slice(br#"["2.0",null]"#).is_none());
    assert!(MockRequest::from_slice(br#"{"jsonrpc":"2.0"}"#).is_none());
    assert!(MockRequest::from_slice(br#"{"jsonrpc":"2.0","method":5}"#).is_none());
    let twice = br#"{"jsonrpc":"2.0","method":"a","params":1,"params":1}"#;
    assert!(MockRequest::from_slice(twice).is_none());
}
