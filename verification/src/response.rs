//! A response as it is handed to the user.
use crate::json::null_text;
use crate::raw_response::{json_of, text_of, RawResponse, ResponseView};
use std::sync::Arc;
use vstd::prelude::*;

verus! {

/// A JSON-RPC response.
#[derive(Debug)]
pub struct Response(pub(crate) Arc<RawResponse<'static>>);

impl View for Response {
    type V = ResponseView;

    closed spec fn view(&self) -> ResponseView {
        self.0@
    }
}

impl Clone for Response {
    fn clone(&self) -> (r: Self)
        ensures
            r@ == self@,
    {
        Response(self.0.clone())
    }
}

/// An error returned from trying to deserialize the response.
#[derive(Debug)]
pub enum ResponseError {
    /// An ok or error value was expected, and the other was received.
    WrongResponse,
    /// An error deserializing some received JSON into the expected type.
    Deserialize(serde_json::Error),
}

/// The deserialized error object returned from [`Response::error_into()`].
pub struct ErrorObject<Data> {
    pub code: i32,
    pub message: String,
    pub data: Data,
}

/// Whether `parse` may be handed a JSON text.
pub open spec fn parses<R, P: FnOnce(&str) -> Result<R, serde_json::Error>>(
    parse: P,
    text: Seq<char>,
) -> bool {
    forall|t: &str| t@ == text ==> #[trigger] call_requires(parse, (t,))
}

/// Whether `parse` may make `parsed` of a JSON text.
pub open spec fn may_parse<R, P: FnOnce(&str) -> Result<R, serde_json::Error>>(
    parse: P,
    text: Seq<char>,
    parsed: Result<R, serde_json::Error>,
) -> bool {
    exists|t: &str| t@ == text && #[trigger] call_ensures(parse, (t,), parsed)
}

/// The JSON text of optional error data.
pub open spec fn data_text(data: Option<Seq<char>>) -> Seq<char> {
    match data {
        Some(text) => text,
        None => null_text(),
    }
}

impl Response {
    pub(crate) fn new(response: Arc<RawResponse<'static>>) -> (r: Response)
        ensures
            r@ == response@,
    {
        Response(response)
    }

    /// Hand back the raw response from the server.
    pub fn raw(&self) -> (raw: &RawResponse<'static>)
        ensures
            raw@ == self@,
    {
        &self.0
    }

    /// Deserialize an "ok" response to the requested type, which `parse` makes of JSON.
    pub fn ok_into<R, P: FnOnce(&str) -> Result<R, serde_json::Error>>(&self, parse: P) -> (r: Result<
        R,
        ResponseError,
    >)
        requires
            self@ matches ResponseView::Success(ok) ==> parses(parse, ok.result),
        ensures
            match self@ {
                ResponseView::Success(ok) => match r {
                    Ok(value) => may_parse(parse, ok.result, Ok(value)),
                    Err(ResponseError::Deserialize(error)) => may_parse(
                        parse,
                        ok.result,
                        Err(error),
                    ),
                    Err(ResponseError::WrongResponse) => false,
                },
                ResponseView::Error(_) => r matches Err(ResponseError::WrongResponse),
            },
    {
        let res = match self.raw() {
            RawResponse::Success(res) => res,
            RawResponse::Error(_) => {
                return Err(ResponseError::WrongResponse);
            },
        };
        match parse(json_of(&res.result).get()) {
            Ok(value) => Ok(value),
            Err(error) => Err(ResponseError::Deserialize(error)),
        }
    }

    /// Deserialize the data of an "error" response to the requested type, which `parse` makes of
    /// JSON. No data counts as `null`.
    pub fn error_into<Data, P: FnOnce(&str) -> Result<Data, serde_json::Error>>(&self, parse: P) -> (r:
        Result<ErrorObject<Data>, ResponseError>)
        requires
            self@ matches ResponseView::Error(e) ==> parses(parse, data_text(e.error.data)),
        ensures
            match self@ {
                ResponseView::Success(_) => r matches Err(ResponseError::WrongResponse),
                ResponseView::Error(e) => match r {
                    Ok(object) => {
                        &&& object.code == e.error.code
                        &&& object.message@ == e.error.message
                        &&& may_parse(parse, data_text(e.error.data), Ok(object.data))
                        &&& match e.error.data {
                            Some(text) => may_parse(parse, text, Ok(object.data)),
                            None => may_parse(parse, null_text(), Ok(object.data)),
                        }
                    },
                    Err(ResponseError::Deserialize(error)) => {
                        &&& may_parse(parse, data_text(e.error.data), Err(error))
                        &&& match e.error.data {
                            Some(text) => may_parse(parse, text, Err(error)),
                            None => may_parse(parse, null_text(), Err(error)),
                        }
                    },
                    Err(ResponseError::WrongResponse) => false,
                },
            },
    {
        let err = match self.raw() {
            RawResponse::Error(err) => err,
            RawResponse::Success(_) => {
                return Err(ResponseError::WrongResponse);
            },
        };
        let data = match &err.error.data {
            Some(data) => json_of(data).get(),
            None => {
                proof {
                    reveal_strlit("null");
                    assert("null"@ =~= null_text());
                }
                "null"
            },
        };
        match parse(data) {
            Ok(data) => Ok(
                ErrorObject {
                    code: err.error.code,
                    message: text_of(&err.error.message).to_owned(),
                    data,
                },
            ),
            Err(error) => Err(ResponseError::Deserialize(error)),
        }
    }
}

} // verus!
