//! Decoding and writing responses.
use serde::de::Error;
use std::borrow::Cow;
use std::sync::Arc;
use thin_jsonrpc_client::from_response::{De, DeError, FromResponse, Raw};
use thin_jsonrpc_client::json::RawJson;
use thin_jsonrpc_client::raw_response::{
    ErrorObject, RawResponse, ResponseError, CODE_INTERNAL_ERROR, CODE_INVALID_PARAMS,
    CODE_INVALID_REQUEST, CODE_METHOD_NOT_FOUND, CODE_PARSE_ERROR,
};

fn json(text: &str) -> RawJson {
    RawJson::from_string(text.to_string()).unwrap()
}

fn explain(bytes: &[u8]) -> serde_json::Error {
    serde_json::Error::custom(format!("cannot decode {} bytes", bytes.len()))
}

fn ok(bytes: &[u8]) -> (String, Option<String>, String) {
    match RawResponse::from_bytes(bytes, explain) {
        Ok(RawResponse::Success(ok)) => (
            ok.jsonrpc.to_string(),
            ok.id.as_ref().map(|id| id.to_string()),
            ok.result.get().to_string(),
        ),
        other => panic!("no result: {other:?}"),
    }
}

fn error(bytes: &[u8]) -> (Option<String>, i32, String, Option<String>) {
    match RawResponse::from_bytes(bytes, explain) {
        Ok(RawResponse::Error(e)) => (
            e.id.as_ref().map(|id| id.to_string()),
            e.error.code,
            e.error.message.to_string(),
            e.error.data.as_ref().map(|data| data.get().to_string()),
        ),
        other => panic!("no error: {other:?}"),
    }
}

fn refused(bytes: &[u8]) {
    match RawResponse::from_bytes(bytes, explain) {
        Err(ResponseError::Deserialize { error, bytes: copy }) => {
            assert_eq!(error.to_string(), explain(bytes).to_string());
            assert_eq!(copy, bytes);
        }
        other => panic!("decoded: {other:?}"),
    }
}

#[test]
fn results_are_decoded() {
    let (jsonrpc, id, result) = ok(br#"{"jsonrpc":"2.0","id":"7","result":{"a": [1, 2]}}"#);
    assert_eq!(jsonrpc, "2.0");
    assert_eq!(id, Some("7".to_string()));
    assert_eq!(result, r#"{"a": [1, 2]}"#);
}

#[test]
fn order_white_space_and_other_members_do_not_matter() {
    let (_, id, result) =
        ok(b" \n{ \"result\" :\t12.5e3 , \"more\":{\"id\":[]}, \"id\" : \"x\" , \"jsonrpc\":\"2.0\" }\r\n");
    assert_eq!(id, Some("x".to_string()));
    assert_eq!(result, "12.5e3");
}

#[test]
fn an_id_may_be_missing_or_null() {
    assert_eq!(ok(br#"{"jsonrpc":"2.0","result":1}"#).1, None);
    assert_eq!(ok(br#"{"jsonrpc":"2.0","id":null,"result":1}"#).1, None);
}

#[test]
fn an_id_has_to_be_a_string() {
    refused(br#"{"jsonrpc":"2.0","id":1,"result":1}"#);
}

#[test]
fn a_result_may_be_null() {
    assert_eq!(ok(br#"{"jsonrpc":"2.0","id":"1","result":null}"#).2, "null");
}

#[test]
fn escapes_are_decoded() {
    let (_, id, result) = ok(br#"{"json\u0072pc":"2\u002e0","id":"a\n\"\u00e4\\","result":"\u0041"}"#);
    assert_eq!(id, Some("a\n\"\u{e4}\\".to_string()));
    assert_eq!(result, r#""\u0041""#);
}

#[test]
fn fields_may_come_as_an_array() {
    let (_, id, result) = ok(br#"["2.0", "3", {"x":1}]"#);
    assert_eq!(id, Some("3".to_string()));
    assert_eq!(result, r#"{"x":1}"#);
    assert_eq!(ok(br#"["2.0",null,5]"#).1, None);
    refused(br#"["2.0", "3"]"#);
    refused(br#"["2.0", "3", 1, 2]"#);
    refused(b"[]");
}

#[test]
fn a_field_may_not_occur_twice() {
    refused(br#"{"jsonrpc":"2.0","result":1,"result":2}"#);
    refused(br#"{"jsonrpc":"2.0","jsonrpc":"2.0","result":2}"#);
    refused(br#"{"jsonrpc":"2.0","id":"1","id":null,"result":2}"#);
    assert_eq!(ok(br#"{"jsonrpc":"2.0","x":1,"x":2,"result":2}"#).2, "2");
}

#[test]
fn broken_messages_are_refused() {
    refused(b"");
    refused(b"   ");
    refused(b"{");
    refused(b"{}");
    refused(b"5");
    refused(br#"{"jsonrpc":"2.0"}"#);
    refused(br#"{"result":1}"#);
    refused(br#"{"jsonrpc":2.0,"result":1}"#);
    refused(br#"{"jsonrpc":"2.0","result":1} x"#);
    refused(br#"{"jsonrpc":"2.0","result":1,}"#);
    refused(br#"{"jsonrpc":"2.0" "result":1}"#);
    refused(br#"{"jsonrpc":"2.0","result":tru}"#);
    refused(br#"{"jsonrpc":"2.0","result":"a}"#);
    refused(br#"{jsonrpc:"2.0","result":1}"#);
    refused(b"{\"jsonrpc\":\"2.0\",\"result\":\"\xff\"}");
    refused(b"{\"jsonrpc\":\"2.0\",\"id\":\"\xff\",\"result\":1}");
    refused(b"{\"jsonrpc\":\"2.0\",\"\xff\":1,\"result\":1}");
}

#[test]
fn a_value_that_is_passed_over_may_be_anything() {
    assert_eq!(ok(b"{\"jsonrpc\":\"2.0\",\"x\":\"\xff\",\"result\":1}").2, "1");
}

#[test]
fn another_version_is_refused() {
    for bytes in [
        &br#"{"jsonrpc":"1.0","result":1}"#[..],
        &br#"{"jsonrpc":"","error":{"code":1,"message":""}}"#[..],
    ] {
        match RawResponse::from_bytes(bytes, explain) {
            Err(ResponseError::InvalidVersion { bytes: copy }) => assert_eq!(copy, bytes),
            other => panic!("{other:?}"),
        }
    }
}

#[test]
fn errors_are_decoded() {
    let bytes = br#"{"jsonrpc":"2.0","id":"1","error":{"code":-32600,"message":"no","data":[1]}}"#;
    let (id, code, message, data) = error(bytes);
    assert_eq!(id, Some("1".to_string()));
    assert_eq!(code, CODE_INVALID_REQUEST);
    assert_eq!(message, "no");
    assert_eq!(data, Some("[1]".to_string()));
    let (id, code, message, data) =
        error(br#"{"jsonrpc":"2.0","error":{"message":"","data":null,"code":0}}"#);
    assert_eq!((id, code, message.as_str(), data), (None, 0, "", None));
    let (_, code, message, data) = error(br#"{"jsonrpc":"2.0","error":[7,"m",8]}"#);
    assert_eq!((code, message.as_str(), data), (7, "m", Some("8".to_string())));
    // An array lists the fields of a result.
    assert_eq!(ok(br#"["2.0",null,[7,"m",8]]"#).2, r#"[7,"m",8]"#);
}

#[test]
fn error_details_have_to_be_whole() {
    refused(br#"{"jsonrpc":"2.0","error":{"code":1}}"#);
    refused(br#"{"jsonrpc":"2.0","error":{"message":"m"}}"#);
    refused(br#"{"jsonrpc":"2.0","error":{"code":1.5,"message":"m"}}"#);
    refused(br#"{"jsonrpc":"2.0","error":{"code":2147483648,"message":"m"}}"#);
    refused(br#"{"jsonrpc":"2.0","error":5}"#);
    refused(br#"{"jsonrpc":"2.0","error":null}"#);
    refused(br#"{"jsonrpc":"2.0","error":[1]}"#);
    assert_eq!(error(br#"{"jsonrpc":"2.0","error":{"code":-2147483648,"message":"m"}}"#).1, i32::MIN);
}

#[test]
fn a_message_with_result_and_error_is_a_result() {
    assert_eq!(ok(br#"{"jsonrpc":"2.0","error":{"code":1,"message":"m"},"result":1}"#).2, "1");
}

#[test]
fn responses_are_written_and_read_back() {
    let id = Some("a\"\u{1}\u{1f600}".to_string());
    let response = RawResponse::ok_from_value(id.clone(), json(" [1, 2] "));
    let text = response.to_json();
    assert_eq!(
        text.get(),
        "{\"jsonrpc\":\"2.0\",\"id\":\"a\\\"\\u0001\u{1f600}\",\"result\":[1, 2]}"
    );
    let (_, read_id, result) = ok(text.get().as_bytes());
    assert_eq!(read_id, id);
    assert_eq!(result, "[1, 2]");
    let notification = RawResponse::ok_from_value(None, json("null"));
    assert_eq!(notification.to_json().get(), r#"{"jsonrpc":"2.0","id":null,"result":null}"#);
}

#[test]
fn error_responses_are_written_and_read_back() {
    let details = ErrorObject {
        code: CODE_INTERNAL_ERROR,
        message: Cow::Borrowed("tab\there"),
        data: Some(Cow::Owned(json("{\"k\":0}"))),
    };
    assert_eq!(details.to_string(), "Error -32603: tab\there");
    let response = RawResponse::err_from_value(Some("9".to_string()), details.clone());
    let text = response.to_json();
    assert_eq!(
        text.get(),
        r#"{"jsonrpc":"2.0","id":"9","error":{"code":-32603,"message":"tab\there","data":{"k":0}}}"#
    );
    let (id, code, message, data) = error(text.get().as_bytes());
    assert_eq!(id, Some("9".to_string()));
    assert_eq!(code, -32603);
    assert_eq!(message, "tab\there");
    assert_eq!(data, Some("{\"k\":0}".to_string()));
    let bare = ErrorObject { code: i32::MIN, message: Cow::Borrowed(""), data: None };
    assert_eq!(bare.to_string(), "Error -2147483648: ");
    let bare = RawResponse::err_from_value(None, bare);
    assert_eq!(
        bare.to_json().get(),
        r#"{"jsonrpc":"2.0","id":null,"error":{"code":-2147483648,"message":"","data":null}}"#
    );
}

#[test]
fn error_data_that_is_null_is_read_back_as_none() {
    let details =
        ErrorObject { code: 1, message: Cow::Borrowed("m"), data: Some(Cow::Owned(json("null"))) };
    let response = RawResponse::err_from_value(None, details);
    assert_eq!(error(response.to_json().get().as_bytes()).3, None);
}

#[test]
fn taking_ownership_changes_nothing() {
    let bytes = br#"{"jsonrpc":"2.0","id":"1","error":{"code":5,"message":"m","data":"d"}}"#.to_vec();
    let owned = RawResponse::from_bytes(&bytes, explain).unwrap().into_owned();
    drop(bytes);
    assert_eq!(owned.id(), Some("1"));
    assert_eq!(
        owned.clone().to_json().get(),
        r#"{"jsonrpc":"2.0","id":"1","error":{"code":5,"message":"m","data":"d"}}"#
    );
    let owned = RawResponse::from_bytes(br#"["2.0",null,true]"#, explain).unwrap().into_owned();
    assert_eq!(owned.id(), None);
    assert_eq!(owned.to_json().get(), r#"{"jsonrpc":"2.0","id":null,"result":true}"#);
}

#[test]
fn the_codes_are_those_of_the_protocol() {
    assert_eq!(CODE_PARSE_ERROR, -32700);
    assert_eq!(CODE_INVALID_REQUEST, -32600);
    assert_eq!(CODE_METHOD_NOT_FOUND, -32601);
    assert_eq!(CODE_INVALID_PARAMS, -32602);
    assert_eq!(CODE_INTERNAL_ERROR, -32603);
}

#[test]
fn raw_responses_are_handed_on() {
    let response = Arc::new(RawResponse::ok_from_value(Some("1".to_string()), json("5")));
    let raw = Raw::from_response(response).unwrap();
    assert_eq!(raw.response().id(), Some("1"));
    assert_eq!(raw.clone().id(), Some("1"));
}

#[test]
fn results_are_deserialized() {
    let parse = |text: &str| serde_json::from_str::<u8>(text);
    let response = Arc::new(RawResponse::ok_from_value(None, json("5")));
    assert_eq!(De::<u8>::from_response(response, parse).unwrap(), 5);
    let response = Arc::new(RawResponse::ok_from_value(None, json("\"x\"")));
    assert!(matches!(De::<u8>::from_response(response, parse), Err(DeError::Deserialize(_))));
    let details = ErrorObject { code: 1, message: Cow::Borrowed("m"), data: None };
    let response = Arc::new(RawResponse::err_from_value(Some("4".to_string()), details));
    match De::<u8>::from_response(response, parse) {
        Err(DeError::Rpc(raw)) => assert_eq!(raw.id(), Some("4")),
        _ => panic!("no error"),
    }
}

#[test]
fn raw_json_holds_one_value() {
    assert_eq!(RawJson::from_string("\n 5 ".to_string()).unwrap().get(), "5");
    assert_eq!(RawJson::from_string("{\"a\" :1}".to_string()).unwrap().get(), "{\"a\" :1}");
    assert_eq!(RawJson::null().get(), "null");
    for text in ["", "  ", "5 6", "{", "[1,]", "nul", "\"a", "1x", "{\"a\":1}}"] {
        assert!(RawJson::from_string(text.to_string()).is_err(), "{text}");
    }
    let deep = format!("{}{}", "[".repeat(1000), "]".repeat(1000));
    assert_eq!(RawJson::from_string(deep.clone()).unwrap().get(), deep);
}

#[test]
fn escapes_outside_of_ascii_are_decoded() {
    let (_, id, _) = ok(br#"{"jsonrpc":"2.0","id":"\/\u00E4\ud83d\ude00\b\f\u007f","result":1}"#);
    assert_eq!(id, Some("/\u{e4}\u{1f600}\u{8}\u{c}\u{7f}".to_string()));
    refused(br#"{"jsonrpc":"2.0","id":"\ud83d","result":1}"#);
    refused(br#"{"jsonrpc":"2.0","id":"\x","result":1}"#);
    refused(b"{\"jsonrpc\":\"2.0\",\"id\":\"a\nb\",\"result\":1}");
    assert_eq!(ok(br#"{"jsonrpc":"2.0","x":"\ud83d","result":1}"#).2, "1");
}

#[test]
fn words_end_where_they_have_to() {
    assert_eq!(ok(br#"{"jsonrpc":"2.0","id":null ,"result": true}"#).2, "true");
    assert_eq!(ok(br#"["2.0",null,false]"#).2, "false");
    refused(br#"{"jsonrpc":"2.0","result":nullx}"#);
    refused(br#"{"jsonrpc":"2.0","result":truefalse}"#);
}

#[test]
fn error_codes_are_whole_numbers() {
    for code in ["-0", "01", "1e2", "1.0", "-2147483649", "\"1\"", "null"] {
        let message = format!("{{\"jsonrpc\":\"2.0\",\"error\":{{\"code\":{code},\"message\":\"m\"}}}}");
        refused(message.as_bytes());
    }
    assert_eq!(error(br#"{"jsonrpc":"2.0","error":{"code": 2147483647 ,"message":"m"}}"#).1, i32::MAX);
}

#[test]
fn an_explanation_is_handed_back_as_it_is() {
    let strict = |bytes: &[u8]| serde_json::from_slice::<()>(bytes).unwrap_err();
    match RawResponse::from_bytes(b"\n 5", strict) {
        Err(ResponseError::Deserialize { error, bytes }) => {
            assert_eq!((error.line(), error.column()), (2, 2));
            assert!(error.is_data());
            assert_eq!(bytes, b"\n 5");
        }
        other => panic!("{other:?}"),
    }
    match RawResponse::from_bytes(b"", strict) {
        Err(ResponseError::Deserialize { error, .. }) => assert!(error.is_eof()),
        other => panic!("{other:?}"),
    }
    // What can be decoded is not asked about.
    let never = |_: &[u8]| panic!("asked");
    assert!(RawResponse::from_bytes(br#"{"jsonrpc":"2.0","result":1}"#, never).is_ok());
}

#[test]
fn numbers_end_where_they_have_to() {
    for number in ["0", "-0", "10", "2.50", "-0.5", "1e5", "1E+05", "12.5e-3", "0e0"] {
        assert_eq!(RawJson::from_string(number.to_string()).unwrap().get(), number);
        let message = format!("{{\"jsonrpc\":\"2.0\",\"result\":{number} }}");
        assert_eq!(ok(message.as_bytes()).2, number);
        let message = format!("[\"2.0\",null,{number}]");
        assert_eq!(ok(message.as_bytes()).2, number);
    }
    for number in ["-", "+1", "01", "-01", "1.", ".5", "1.e2", "1e", "1e+", "1.5.2", "1x", "--1"] {
        assert!(RawJson::from_string(number.to_string()).is_err(), "{number}");
        refused(format!("{{\"jsonrpc\":\"2.0\",\"result\":{number}}}").as_bytes());
    }
}
