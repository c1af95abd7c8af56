//! JSON-RPC response types.
use crate::compose::{
    all_wf, lemma_quoted_first, members_of, object_bytes, object_is_value, pair, ObjectWriter,
    PairView,
};
use crate::fields::{
    check_fits, field, find, fits, i32_field, is_null,
    lemma_named_missing, lemma_named_once, named, optional_raw_field, optional_string_field,
    raw_field, raw_value, read_i32_field, read_optional_raw_field, read_optional_string_field,
    read_raw_field, read_string_field, string_field, FieldView,
};
use crate::json::{lemma_null, lemma_number, null_text, quoted, RawJson};
use crate::layout::{document, read_document, MemberView, Parts, PartsView};
use crate::literal::lemma_literal_value;
use crate::text::{same_text, signed_decimal, signed_decimal_text};
use std::borrow::Cow;
use vstd::prelude::*;
use vstd::slice::slice_to_vec;
use vstd::string::StringExecFns;
use vstd::utf8::{encode_utf8, encode_utf8_decode_utf8, encode_utf8_valid_utf8};

verus! {

/// What a JSON-RPC "result" response holds.
pub struct OkView {
    pub jsonrpc: Seq<char>,
    pub id: Option<Seq<char>>,
    pub result: Seq<char>,
}

/// What the details of a JSON-RPC error hold.
pub struct ErrorObjectView {
    pub code: i32,
    pub message: Seq<char>,
    pub data: Option<Seq<char>>,
}

/// What a JSON-RPC "error" response holds.
pub struct ErrorView {
    pub jsonrpc: Seq<char>,
    pub id: Option<Seq<char>>,
    pub error: ErrorObjectView,
}

/// What a JSON-RPC response holds.
pub enum ResponseView {
    Success(OkView),
    Error(ErrorView),
}

impl ResponseView {
    /// The ID of the response.
    pub open spec fn id(self) -> Option<Seq<char>> {
        match self {
            ResponseView::Success(ok) => ok.id,
            ResponseView::Error(error) => error.id,
        }
    }

    /// The protocol version that the response states.
    pub open spec fn version(self) -> Seq<char> {
        match self {
            ResponseView::Success(ok) => ok.jsonrpc,
            ResponseView::Error(error) => error.jsonrpc,
        }
    }
}

/// The contents of an optional text.
pub open spec fn optional_text(text: Option<Cow<'_, str>>) -> Option<Seq<char>> {
    match text {
        Some(t) => Some(t@),
        None => None,
    }
}

/// The contents of an optional JSON value.
pub open spec fn optional_json(json: Option<Cow<'_, RawJson>>) -> Option<Seq<char>> {
    match json {
        Some(j) => Some(j@),
        None => None,
    }
}

/// The "result" response that the parts of a message make up. `jsonrpc` and `result` have to be
/// there; an `id` has to be a string.
pub open spec fn ok_parts(parts: PartsView) -> Option<OkView> {
    if !fits(parts, 3, 3) {
        None
    } else {
        match string_field(parts, "jsonrpc"@, 0) {
            Some(jsonrpc) => match optional_string_field(parts, "id"@, 1) {
                Some(id) => match raw_field(parts, "result"@, 2) {
                    Some(result) => Some(OkView { jsonrpc, id, result }),
                    None => None,
                },
                None => None,
            },
            None => None,
        }
    }
}

/// The error details that the parts of an object make up. `code` and `message` have to be there.
pub open spec fn error_object_parts(parts: PartsView) -> Option<ErrorObjectView> {
    if !fits(parts, 3, 3) {
        None
    } else {
        match i32_field(parts, "code"@, 0) {
            Some(code) => match string_field(parts, "message"@, 1) {
                Some(message) => match optional_raw_field(parts, "data"@, 2) {
                    Some(data) => Some(ErrorObjectView { code, message, data }),
                    None => None,
                },
                None => None,
            },
            None => None,
        }
    }
}

/// The error details that an object holds.
pub open spec fn error_object_decoded(bytes: Seq<u8>) -> Option<ErrorObjectView> {
    match document(bytes) {
        Some(parts) => error_object_parts(parts),
        None => None,
    }
}

/// The error details that the field `error` holds.
pub open spec fn error_field(parts: PartsView) -> Option<ErrorObjectView> {
    match field(parts, "error"@, 2) {
        FieldView::Missing => None,
        FieldView::Value(value) => error_object_decoded(value),
        FieldView::Duplicate => None,
    }
}

/// The "error" response that the parts of a message make up.
pub open spec fn error_parts(parts: PartsView) -> Option<ErrorView> {
    if !fits(parts, 3, 3) {
        None
    } else {
        match string_field(parts, "jsonrpc"@, 0) {
            Some(jsonrpc) => match optional_string_field(parts, "id"@, 1) {
                Some(id) => match error_field(parts) {
                    Some(error) => Some(ErrorView { jsonrpc, id, error }),
                    None => None,
                },
                None => None,
            },
            None => None,
        }
    }
}

/// The response that some bytes hold, whatever version it states: a "result" response if they
/// make up one, or else an "error" response if they make up one.
pub open spec fn decoded(bytes: Seq<u8>) -> Option<ResponseView> {
    match document(bytes) {
        Some(parts) => match ok_parts(parts) {
            Some(ok) => Some(ResponseView::Success(ok)),
            None => match error_parts(parts) {
                Some(error) => Some(ResponseView::Error(error)),
                None => None,
            },
        },
        None => None,
    }
}

/// Whether `explain` may be asked what is wrong with some bytes.
pub open spec fn explains<P: FnOnce(&[u8]) -> serde_json::Error>(explain: P, bytes: Seq<u8>) -> bool {
    forall|b: &[u8]| b@ == bytes ==> #[trigger] call_requires(explain, (b,))
}

/// Whether `explain` may say that this is what is wrong with some bytes.
pub open spec fn may_explain<P: FnOnce(&[u8]) -> serde_json::Error>(
    explain: P,
    bytes: Seq<u8>,
    error: serde_json::Error,
) -> bool {
    exists|b: &[u8]| b@ == bytes && #[trigger] call_ensures(explain, (b,), error)
}

/// How an optional text is written.
pub open spec fn optional_literal(text: Option<Seq<char>>) -> Seq<char> {
    match text {
        Some(t) => quoted(t),
        None => null_text(),
    }
}

/// How an optional JSON value is written.
pub open spec fn optional_value(json: Option<Seq<char>>) -> Seq<char> {
    match json {
        Some(j) => j,
        None => null_text(),
    }
}

/// The members of the error details as they are written.
pub open spec fn error_object_pairs(error: ErrorObjectView) -> Seq<PairView> {
    seq![
        pair("code"@, encode_utf8(signed_decimal(error.code as int))),
        pair("message"@, encode_utf8(quoted(error.message))),
        pair("data"@, encode_utf8(optional_value(error.data))),
    ]
}

/// The members of a response as they are written.
pub open spec fn response_pairs(response: ResponseView) -> Seq<PairView> {
    match response {
        ResponseView::Success(ok) => seq![
            pair("jsonrpc"@, encode_utf8(quoted(ok.jsonrpc))),
            pair("id"@, encode_utf8(optional_literal(ok.id))),
            pair("result"@, encode_utf8(ok.result)),
        ],
        ResponseView::Error(error) => seq![
            pair("jsonrpc"@, encode_utf8(quoted(error.jsonrpc))),
            pair("id"@, encode_utf8(optional_literal(error.id))),
            pair("error"@, object_bytes(error_object_pairs(error.error))),
        ],
    }
}

/// An error handed back when we cannot correctly deserialize bytes into a [`RawResponse`].
#[derive(Debug)]
pub enum ResponseError {
    /// There was an error deserializing the response.
    Deserialize {
        /// The underlying error.
        error: serde_json::Error,
        /// The raw bytes that we failed to deserialize.
        bytes: Vec<u8>,
    },
    /// The "jsonrpc" field did not equal "2.0".
    InvalidVersion {
        /// The raw bytes that we failed to deserialize.
        bytes: Vec<u8>,
    },
}

/// A JSON-RPC response is either a "result" or "error" payload.
#[derive(Debug)]
pub enum RawResponse<'a> {
    /// A JSON-RPC "result" response.
    Success(OkResponse<'a>),
    /// A JSON-RPC "error" response.
    Error(ErrorResponse<'a>),
}

/// A JSON-RPC "result" response.
#[derive(Debug)]
pub struct OkResponse<'a> {
    /// Always expected to be "2.0".
    pub jsonrpc: Cow<'a, str>,
    /// The message ID. None if this is a server notification.
    pub id: Option<Cow<'a, str>>,
    /// The result body.
    pub result: Cow<'a, RawJson>,
}

/// A JSON-RPC "error" response.
#[derive(Debug)]
pub struct ErrorResponse<'a> {
    /// Always expected to be "2.0".
    pub jsonrpc: Cow<'a, str>,
    /// The message ID. None if this is a server notification.
    pub id: Option<Cow<'a, str>>,
    /// Error details.
    pub error: ErrorObject<'a>,
}

/// Details about the JSON-RPC error response.
#[derive(Debug)]
pub struct ErrorObject<'a> {
    /// An error code.
    pub code: ErrorCode,
    /// A "pretty" error message.
    pub message: Cow<'a, str>,
    /// Some other optional error context.
    pub data: Option<Cow<'a, RawJson>>,
}

impl<'a> View for OkResponse<'a> {
    type V = OkView;

    open spec fn view(&self) -> OkView {
        OkView { jsonrpc: self.jsonrpc@, id: optional_text(self.id), result: self.result@ }
    }
}

impl<'a> View for ErrorResponse<'a> {
    type V = ErrorView;

    open spec fn view(&self) -> ErrorView {
        ErrorView { jsonrpc: self.jsonrpc@, id: optional_text(self.id), error: self.error@ }
    }
}

impl<'a> View for ErrorObject<'a> {
    type V = ErrorObjectView;

    open spec fn view(&self) -> ErrorObjectView {
        ErrorObjectView {
            code: self.code,
            message: self.message@,
            data: optional_json(self.data),
        }
    }
}

impl<'a> View for RawResponse<'a> {
    type V = ResponseView;

    open spec fn view(&self) -> ResponseView {
        match self {
            RawResponse::Success(ok) => ResponseView::Success(ok@),
            RawResponse::Error(error) => ResponseView::Error(error@),
        }
    }
}

/// An error code.
pub type ErrorCode = i32;

/// Invalid JSON was received by the server.
pub const CODE_PARSE_ERROR: ErrorCode = -32700;

/// The JSON sent was not a valid request object.
pub const CODE_INVALID_REQUEST: ErrorCode = -32600;

/// The method does not exist or is not available.
pub const CODE_METHOD_NOT_FOUND: ErrorCode = -32601;

/// Invalid method parameters.
pub const CODE_INVALID_PARAMS: ErrorCode = -32602;

/// Internal server error.
pub const CODE_INTERNAL_ERROR: ErrorCode = -32603;

/// The text that a `Cow` holds.
pub(crate) fn text_of<'b>(text: &'b Cow<'_, str>) -> (t: &'b str)
    ensures
        t@ == text@,
{
    match text {
        Cow::Borrowed(t) => t,
        Cow::Owned(t) => t.as_str(),
    }
}

/// The JSON value that a `Cow` holds.
pub(crate) fn json_of<'b>(json: &'b Cow<'_, RawJson>) -> (j: &'b RawJson)
    ensures
        j@ == json@,
{
    match json {
        Cow::Borrowed(j) => j,
        Cow::Owned(j) => j,
    }
}

fn clone_text<'a>(text: &Cow<'a, str>) -> (t: Cow<'a, str>)
    ensures
        t@ == text@,
{
    match text {
        Cow::Borrowed(t) => Cow::Borrowed(*t),
        Cow::Owned(t) => Cow::Owned(t.clone()),
    }
}

fn clone_json<'a>(json: &Cow<'a, RawJson>) -> (j: Cow<'a, RawJson>)
    ensures
        j@ == json@,
{
    match json {
        Cow::Borrowed(j) => Cow::Borrowed(*j),
        Cow::Owned(j) => Cow::Owned(j.clone()),
    }
}

fn clone_id<'a>(id: &Option<Cow<'a, str>>) -> (r: Option<Cow<'a, str>>)
    ensures
        optional_text(r) == optional_text(*id),
{
    match id {
        Some(t) => Some(clone_text(t)),
        None => None,
    }
}

impl<'a> Clone for OkResponse<'a> {
    fn clone(&self) -> (r: Self)
        ensures
            r@ == self@,
    {
        OkResponse {
            jsonrpc: clone_text(&self.jsonrpc),
            id: clone_id(&self.id),
            result: clone_json(&self.result),
        }
    }
}

impl<'a> Clone for ErrorObject<'a> {
    fn clone(&self) -> (r: Self)
        ensures
            r@ == self@,
    {
        ErrorObject {
            code: self.code,
            message: clone_text(&self.message),
            data: match &self.data {
                Some(data) => Some(clone_json(data)),
                None => None,
            },
        }
    }
}

impl<'a> Clone for ErrorResponse<'a> {
    fn clone(&self) -> (r: Self)
        ensures
            r@ == self@,
    {
        ErrorResponse {
            jsonrpc: clone_text(&self.jsonrpc),
            id: clone_id(&self.id),
            error: self.error.clone(),
        }
    }
}

impl<'a> Clone for RawResponse<'a> {
    fn clone(&self) -> (r: Self)
        ensures
            r@ == self@,
    {
        match self {
            RawResponse::Success(ok) => RawResponse::Success(ok.clone()),
            RawResponse::Error(error) => RawResponse::Error(error.clone()),
        }
    }
}

fn own_text(text: Cow<'_, str>) -> (t: Cow<'static, str>)
    ensures
        t@ == text@,
{
    match text {
        Cow::Borrowed(t) => Cow::Owned(t.to_owned()),
        Cow::Owned(t) => Cow::Owned(t),
    }
}

fn own_json(json: Cow<'_, RawJson>) -> (j: Cow<'static, RawJson>)
    ensures
        j@ == json@,
{
    match json {
        Cow::Borrowed(j) => Cow::Owned(j.clone()),
        Cow::Owned(j) => Cow::Owned(j),
    }
}

fn own_id(id: Option<Cow<'_, str>>) -> (r: Option<Cow<'static, str>>)
    ensures
        optional_text(r) == optional_text(id),
{
    match id {
        Some(t) => Some(own_text(t)),
        None => None,
    }
}

fn id_from_string(id: Option<String>) -> (r: Option<Cow<'static, str>>)
    ensures
        optional_text(r) == (match id {
            Some(t) => Some(t@),
            None => None,
        }),
{
    match id {
        Some(t) => Some(Cow::Owned(t)),
        None => None,
    }
}

fn version() -> (v: Cow<'static, str>)
    ensures
        v@ == "2.0"@,
{
    Cow::Borrowed("2.0")
}

fn optional_literal_json(text: &Option<Cow<'_, str>>) -> (json: RawJson)
    ensures
        json@ == optional_literal(optional_text(*text)),
{
    match text {
        Some(t) => RawJson::string(text_of(t)),
        None => RawJson::null(),
    }
}

fn optional_value_json(json: &Option<Cow<'_, RawJson>>) -> (r: RawJson)
    ensures
        r@ == optional_value(optional_json(*json)),
{
    match json {
        Some(j) => json_of(j).clone(),
        None => RawJson::null(),
    }
}

/// Takes the parts of a message for a "result" response.
fn read_ok(parts: &Parts) -> (r: Option<OkResponse<'static>>)
    requires
        parts.hold_values(),
    ensures
        match r {
            Some(ok) => ok_parts(parts@) == Some(ok@),
            None => ok_parts(parts@) is None,
        },
{
    if !check_fits(parts, 3, 3) {
        return None;
    }
    let jsonrpc = match read_string_field(parts, "jsonrpc", 0) {
        Some(jsonrpc) => jsonrpc,
        None => {
            return None;
        },
    };
    let id = match read_optional_string_field(parts, "id", 1) {
        Some(id) => id,
        None => {
            return None;
        },
    };
    match read_raw_field(parts, "result", 2) {
        Some(result) => Some(
            OkResponse {
                jsonrpc: Cow::Owned(jsonrpc),
                id: id_from_string(id),
                result: Cow::Owned(result),
            },
        ),
        None => None,
    }
}

/// Takes the parts of an object for error details.
fn read_error_object(parts: &Parts) -> (r: Option<ErrorObject<'static>>)
    requires
        parts.hold_values(),
    ensures
        match r {
            Some(error) => error_object_parts(parts@) == Some(error@),
            None => error_object_parts(parts@) is None,
        },
{
    if !check_fits(parts, 3, 3) {
        return None;
    }
    let code = match read_i32_field(parts, "code", 0) {
        Some(code) => code,
        None => {
            return None;
        },
    };
    let message = match read_string_field(parts, "message", 1) {
        Some(message) => message,
        None => {
            return None;
        },
    };
    match read_optional_raw_field(parts, "data", 2) {
        Some(Some(data)) => Some(
            ErrorObject { code, message: Cow::Owned(message), data: Some(Cow::Owned(data)) },
        ),
        Some(None) => Some(ErrorObject { code, message: Cow::Owned(message), data: None }),
        None => None,
    }
}

/// Takes the field `error` of a message for error details.
fn read_error_field(parts: &Parts) -> (r: Option<ErrorObject<'static>>)
    requires
        parts.hold_values(),
    ensures
        match r {
            Some(error) => error_field(parts@) == Some(error@),
            None => error_field(parts@) is None,
        },
{
    match find(parts, "error", 2) {
        Some(Some(value)) => match read_document(value.as_slice()) {
            Some(inner) => read_error_object(&inner),
            None => None,
        },
        Some(None) => None,
        None => None,
    }
}

/// Takes the parts of a message for an "error" response.
fn read_error(parts: &Parts) -> (r: Option<ErrorResponse<'static>>)
    requires
        parts.hold_values(),
    ensures
        match r {
            Some(error) => error_parts(parts@) == Some(error@),
            None => error_parts(parts@) is None,
        },
{
    if !check_fits(parts, 3, 3) {
        return None;
    }
    let jsonrpc = match read_string_field(parts, "jsonrpc", 0) {
        Some(jsonrpc) => jsonrpc,
        None => {
            return None;
        },
    };
    let id = match read_optional_string_field(parts, "id", 1) {
        Some(id) => id,
        None => {
            return None;
        },
    };
    match read_error_field(parts) {
        Some(error) => Some(
            ErrorResponse { jsonrpc: Cow::Owned(jsonrpc), id: id_from_string(id), error },
        ),
        None => None,
    }
}

/// Takes bytes for a response, whatever version it states.
fn read_response(bytes: &[u8]) -> (r: Option<RawResponse<'static>>)
    ensures
        match r {
            Some(response) => decoded(bytes@) == Some(response@),
            None => decoded(bytes@) is None,
        },
{
    match read_document(bytes) {
        Some(parts) => match read_ok(&parts) {
            Some(ok) => Some(RawResponse::Success(ok)),
            None => match read_error(&parts) {
                Some(error) => Some(RawResponse::Error(error)),
                None => None,
            },
        },
        None => None,
    }
}

/// Whether a response can be told from what is written of it. Error data that is `null` cannot
/// be told from no data.
pub open spec fn distinguishable(response: ResponseView) -> bool {
    response matches ResponseView::Error(e) ==> (e.error.data matches Some(data) ==> !is_null(
        encode_utf8(data),
    ))
}

proof fn lemma_names()
    ensures
        "jsonrpc"@ != "id"@,
        "jsonrpc"@ != "result"@,
        "jsonrpc"@ != "error"@,
        "id"@ != "result"@,
        "id"@ != "error"@,
        "result"@ != "error"@,
        "code"@ != "message"@,
        "code"@ != "data"@,
        "message"@ != "data"@,
{
    reveal_strlit("jsonrpc");
    reveal_strlit("id");
    reveal_strlit("result");
    reveal_strlit("error");
    reveal_strlit("code");
    reveal_strlit("message");
    reveal_strlit("data");
    assert("jsonrpc"@[0] == 'j');
    assert("id"@[0] == 'i');
    assert("result"@[0] == 'r');
    assert("error"@[0] == 'e');
    assert("code"@[0] == 'c');
    assert("message"@[0] == 'm');
    assert("data"@[0] == 'd');
}

proof fn lemma_read_back_json(text: Seq<char>)
    ensures
        raw_value(encode_utf8(text)) == Some(text),
{
    encode_utf8_valid_utf8(text);
    encode_utf8_decode_utf8(text);
}

/// An ID is read back from the member that it is written to.
proof fn lemma_id_read_back(parts: PartsView, id: Option<Seq<char>>)
    requires
        field(parts, "id"@, 1) == FieldView::Value(encode_utf8(optional_literal(id))),
    ensures
        optional_string_field(parts, "id"@, 1) == Some(id),
{
    lemma_null();
    if let Some(t) = id {
        lemma_quoted_first(t);
        lemma_literal_value(t);
    }
}

/// Error details are read back from the object that they are written to.
proof fn lemma_error_object_read_back(error: ErrorObjectView)
    requires
        all_wf(error_object_pairs(error)),
        error.data matches Some(data) ==> !is_null(encode_utf8(data)),
    ensures
        error_object_decoded(object_bytes(error_object_pairs(error))) == Some(error),
{
    let pairs = error_object_pairs(error);
    let members = members_of(pairs);
    object_is_value(pairs);
    lemma_names();
    lemma_null();
    lemma_number(error.code);
    lemma_literal_value(error.message);
    assert(members[0] == pairs[0].member());
    assert(members[1] == pairs[1].member());
    assert(members[2] == pairs[2].member());
    lemma_named_once(members, 0, "code"@);
    lemma_named_once(members, 1, "message"@);
    lemma_named_once(members, 2, "data"@);
    if let Some(data) = error.data {
        lemma_read_back_json(data);
    }
}

/// What the last member of a response is called, and what it holds.
pub open spec fn payload(response: ResponseView) -> PairView {
    match response {
        ResponseView::Success(ok) => pair("result"@, encode_utf8(ok.result)),
        ResponseView::Error(error) => pair("error"@, object_bytes(error_object_pairs(error.error))),
    }
}

/// The fields of a response are found under their names.
proof fn lemma_fields_found(members: Seq<MemberView>, response: ResponseView)
    requires
        members == members_of(response_pairs(response)),
    ensures
        named(members, "jsonrpc"@) == FieldView::Value(encode_utf8(quoted(response.version()))),
        named(members, "id"@) == FieldView::Value(encode_utf8(optional_literal(response.id()))),
        named(members, payload(response).name) == FieldView::Value(payload(response).value),
        response is Error ==> named(members, "result"@) is Missing,
{
    let pairs = response_pairs(response);
    lemma_names();
    assert(members.len() == 3);
    assert(members[0] == pairs[0].member());
    assert(members[1] == pairs[1].member());
    assert(members[2] == payload(response).member());
    lemma_named_once(members, 0, "jsonrpc"@);
    lemma_named_once(members, 1, "id"@);
    lemma_named_once(members, 2, payload(response).name);
    if response is Error {
        lemma_named_missing(members, "result"@);
    }
}

/// A response is read back from its members.
proof fn lemma_members_read_back(members: Seq<MemberView>, response: ResponseView)
    requires
        members == members_of(response_pairs(response)),
        response matches ResponseView::Error(e) ==> error_object_decoded(
            object_bytes(error_object_pairs(e.error)),
        ) == Some(e.error),
    ensures
        match response {
            ResponseView::Success(ok) => ok_parts(PartsView::Members(members)) == Some(ok),
            ResponseView::Error(error) => ok_parts(PartsView::Members(members)) is None
                && error_parts(PartsView::Members(members)) == Some(error),
        },
{
    let parts = PartsView::Members(members);
    lemma_fields_found(members, response);
    lemma_literal_value(response.version());
    lemma_id_read_back(parts, response.id());
    assert(string_field(parts, "jsonrpc"@, 0) == Some(response.version()));
    match response {
        ResponseView::Success(ok) => {
            lemma_read_back_json(ok.result);
            assert(raw_field(parts, "result"@, 2) == Some(ok.result));
        },
        ResponseView::Error(error) => {
            assert(raw_field(parts, "result"@, 2) is None);
            assert(error_field(parts) == Some(error.error));
        },
    }
}

/// A response is decoded from the object that it is written to.
proof fn lemma_response_read_back(response: ResponseView)
    requires
        all_wf(response_pairs(response)),
        response matches ResponseView::Error(e) ==> error_object_decoded(
            object_bytes(error_object_pairs(e.error)),
        ) == Some(e.error),
    ensures
        decoded(object_bytes(response_pairs(response))) == Some(response),
{
    let pairs = response_pairs(response);
    object_is_value(pairs);
    lemma_members_read_back(members_of(pairs), response);
}

impl<'a> ErrorObject<'a> {
    /// Write the error details as a JSON object.
    fn to_json(&self) -> (json: RawJson)
        ensures
            encode_utf8(json@) == object_bytes(error_object_pairs(self@)),
            (self@.data matches Some(data) ==> !is_null(encode_utf8(data))) ==> error_object_decoded(
                encode_utf8(json@),
            ) == Some(self@),
    {
        let code = RawJson::number(self.code);
        let message = RawJson::string(text_of(&self.message));
        let data = optional_value_json(&self.data);
        let writer = ObjectWriter::new().member("code", &code).member("message", &message).member(
            "data",
            &data,
        );
        assert(writer.pairs() =~= error_object_pairs(self@));
        match writer.finish() {
            Some(json) => {
                proof {
                    if self@.data matches Some(data) ==> !is_null(encode_utf8(data)) {
                        lemma_error_object_read_back(self@);
                    }
                }
                json
            },
            None => vstd::pervasive::unreached(),
        }
    }
}

impl<'a> RawResponse<'a> {
    /// Write the members of the response.
    fn writer(&self) -> (writer: ObjectWriter)
        ensures
            writer.pairs() == response_pairs(self@),
            distinguishable(self@) ==> (self@ matches ResponseView::Error(e)
                ==> error_object_decoded(object_bytes(error_object_pairs(e.error))) == Some(
                e.error,
            )),
    {
        match self {
            RawResponse::Success(ok) => {
                let jsonrpc = RawJson::string(text_of(&ok.jsonrpc));
                let id = optional_literal_json(&ok.id);
                ObjectWriter::new().member("jsonrpc", &jsonrpc).member("id", &id).member(
                    "result",
                    json_of(&ok.result),
                )
            },
            RawResponse::Error(error) => {
                let jsonrpc = RawJson::string(text_of(&error.jsonrpc));
                let id = optional_literal_json(&error.id);
                let details = error.error.to_json();
                ObjectWriter::new().member("jsonrpc", &jsonrpc).member("id", &id).member(
                    "error",
                    &details,
                )
            },
        }
    }

    /// Write the response as a JSON object. Decoding it gives the response back, unless it has
    /// error data that is `null`.
    pub fn to_json(&self) -> (json: RawJson)
        ensures
            encode_utf8(json@) == object_bytes(response_pairs(self@)),
            document(encode_utf8(json@)) == Some(
                PartsView::Members(members_of(response_pairs(self@))),
            ),
            distinguishable(self@) ==> decoded(encode_utf8(json@)) == Some(self@),
    {
        let writer = self.writer();
        let json = writer.finish();
        proof {
            object_is_value(response_pairs(self@));
            if distinguishable(self@) {
                lemma_response_read_back(self@);
            }
        }
        match json {
            Some(json) => json,
            None => vstd::pervasive::unreached(),
        }
    }

    /// Return the ID associated with the response, if there is one.
    /// Notifications from the server that aren't associated with a
    /// request won't.
    pub fn id(&self) -> (id: Option<&str>)
        ensures
            self@.id() == (match id {
                Some(text) => Some(text@),
                None => None,
            }),
    {
        let id = match self {
            RawResponse::Success(r) => &r.id,
            RawResponse::Error(e) => &e.id,
        };
        match id {
            Some(text) => Some(text_of(text)),
            None => None,
        }
    }

    /// Decode some bytes into a valid JSON-RPC response or return an error if it's not valid.
    /// Where they cannot be deserialized, `explain` says what error that is.
    pub fn from_bytes<P: FnOnce(&[u8]) -> serde_json::Error>(bytes: &[u8], explain: P) -> (r: Result<
        RawResponse<'_>,
        ResponseError,
    >)
        requires
            decoded(bytes@) is None ==> explains(explain, bytes@),
        ensures
            match r {
                Ok(response) => decoded(bytes@) == Some(response@) && response@.version() == "2.0"@,
                Err(ResponseError::Deserialize { error, bytes: copy }) => {
                    &&& decoded(bytes@) is None
                    &&& may_explain(explain, bytes@, error)
                    &&& copy@ == bytes@
                },
                Err(ResponseError::InvalidVersion { bytes: copy }) => {
                    &&& decoded(bytes@) is Some
                    &&& decoded(bytes@)->0.version() != "2.0"@
                    &&& copy@ == bytes@
                },
            },
    {
        let response = match read_response(bytes) {
            Some(response) => response,
            None => {
                let error = explain(bytes);
                return Err(ResponseError::Deserialize { error, bytes: slice_to_vec(bytes) });
            },
        };
        let version = match &response {
            RawResponse::Success(r) => text_of(&r.jsonrpc),
            RawResponse::Error(e) => text_of(&e.jsonrpc),
        };
        if !same_text(version, "2.0") {
            return Err(ResponseError::InvalidVersion { bytes: slice_to_vec(bytes) });
        }
        Ok(response)
    }

    /// Take ownership of a [`RawResponse`], removing any lifetimes.
    pub fn into_owned(self) -> (r: RawResponse<'static>)
        ensures
            r@ == self@,
    {
        match self {
            RawResponse::Success(res) => RawResponse::Success(res.into_owned()),
            RawResponse::Error(err) => RawResponse::Error(err.into_owned()),
        }
    }

    /// Construct an "ok" response from an optional ID and a "result" value.
    pub fn ok_from_value(id: Option<String>, value: RawJson) -> (r: RawResponse<'static>)
        ensures
            r@ == ResponseView::Success(
                OkView {
                    jsonrpc: "2.0"@,
                    id: match id {
                        Some(t) => Some(t@),
                        None => None,
                    },
                    result: value@,
                },
            ),
    {
        RawResponse::Success(
            OkResponse { jsonrpc: version(), id: id_from_string(id), result: Cow::Owned(value) },
        )
    }

    /// Construct an "error" response from an optional ID and error object.
    pub fn err_from_value(id: Option<String>, error: ErrorObject<'_>) -> (r: RawResponse<'static>)
        ensures
            r@ == ResponseView::Error(
                ErrorView {
                    jsonrpc: "2.0"@,
                    id: match id {
                        Some(t) => Some(t@),
                        None => None,
                    },
                    error: error@,
                },
            ),
    {
        RawResponse::Error(
            ErrorResponse { jsonrpc: version(), id: id_from_string(id), error: error.into_owned() },
        )
    }
}

impl<'a> OkResponse<'a> {
    /// Take ownership of an [`OkResponse`], removing any lifetimes.
    pub fn into_owned(self) -> (r: OkResponse<'static>)
        ensures
            r@ == self@,
    {
        OkResponse {
            jsonrpc: own_text(self.jsonrpc),
            id: own_id(self.id),
            result: own_json(self.result),
        }
    }
}

impl<'a> ErrorResponse<'a> {
    /// Take ownership of an [`ErrorResponse`], removing any lifetimes.
    pub fn into_owned(self) -> (r: ErrorResponse<'static>)
        ensures
            r@ == self@,
    {
        ErrorResponse {
            jsonrpc: own_text(self.jsonrpc),
            id: own_id(self.id),
            error: self.error.into_owned(),
        }
    }
}

impl<'a> ErrorObject<'a> {
    /// A short description of the error.
    pub fn to_string(&self) -> (text: String)
        ensures
            text@ == "Error "@ + signed_decimal(self.code as int) + ": "@ + self.message@,
    {
        let mut text = "Error ".to_owned();
        text.append(signed_decimal_text(self.code).as_str());
        text.append(": ");
        text.append(text_of(&self.message));
        text
    }

    /// Take ownership of an [`ErrorObject`], removing any lifetimes.
    pub fn into_owned(self) -> (r: ErrorObject<'static>)
        ensures
            r@ == self@,
    {
        ErrorObject {
            code: self.code,
            message: own_text(self.message),
            data: match self.data {
                Some(data) => Some(own_json(data)),
                None => None,
            },
        }
    }
}

} // verus!
