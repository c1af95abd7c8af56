//! What a message has to hold for a response or a request to be decoded from it, said of the
//! members and elements of the message themselves.
use crate::backend::mock::{request_decoded, MockRequestView};
use crate::fields::{field, named, FieldView};
use crate::json::{
    i32_value, is_number, lemma_number, null_text, string_read, string_value, whole_literal,
};
use crate::layout::{document, MemberView, PartsView};
use crate::raw_response::{
    decoded, error_object_decoded, error_object_parts, error_parts, ok_parts,
    ErrorObjectView, ErrorView, OkView, ResponseView,
};
use crate::text::signed_decimal;
use vstd::prelude::*;
use vstd::utf8::{
    decode_utf8, decode_utf8_encode_utf8, encode_utf8, encode_utf8_decode_utf8,
    encode_utf8_valid_utf8, valid_utf8,
};

verus! {

/// Whether the member at `i` is the only one with this name.
pub open spec fn only(members: Seq<MemberView>, name: Seq<char>, i: int) -> bool {
    &&& 0 <= i < members.len()
    &&& members[i].name == name
    &&& forall|j: int| 0 <= j < members.len() && j != i ==> (#[trigger] members[j]).name != name
}

/// Whether this is the one value that a message holds of a field: that of the only member with its
/// name, or the element at its place.
pub open spec fn holds(parts: PartsView, name: Seq<char>, index: int, value: Seq<u8>) -> bool {
    match parts {
        PartsView::Members(members) => exists|i: int| #[trigger]
            only(members, name, i) && members[i].value == value,
        PartsView::Elements(elements) => 0 <= index < elements.len() && elements[index] == value,
    }
}

/// Whether a message holds nothing of a field: no member has its name, or there is no element at
/// its place.
pub open spec fn lacks(parts: PartsView, name: Seq<char>, index: int) -> bool {
    match parts {
        PartsView::Members(members) => forall|i: int|
            0 <= i < members.len() ==> (#[trigger] members[i]).name != name,
        PartsView::Elements(elements) => !(0 <= index < elements.len()),
    }
}

/// Whether a value starts like `null`, as no other JSON value does.
pub open spec fn starts_like_null(value: Seq<u8>) -> bool {
    value.len() > 0 && value[0] == 0x6e
}

/// What two members with one name come to.
proof fn lemma_named(members: Seq<MemberView>, name: Seq<char>)
    ensures
        named(members, name) matches FieldView::Value(value) ==> exists|i: int| #[trigger]
            only(members, name, i) && members[i].value == value,
        named(members, name) is Missing ==> forall|i: int|
            0 <= i < members.len() ==> (#[trigger] members[i]).name != name,
        named(members, name) is Duplicate ==> exists|i: int, j: int|
            0 <= i < j < members.len() && (#[trigger] members[i]).name == name && (
            #[trigger] members[j]).name == name,
    decreases members.len(),
{
    if members.len() > 0 {
        let shorter = members.drop_last();
        let last = members.len() - 1;
        lemma_named(shorter, name);
        assert(members[last] == members.last());
        assert forall|i: int| 0 <= i < shorter.len() implies #[trigger] members[i] == shorter[i] by {}
        match named(shorter, name) {
            FieldView::Missing => {
                assert forall|i: int| 0 <= i < last implies (#[trigger] members[i]).name != name by {
                    assert(shorter[i].name != name);
                }
                if members.last().name == name {
                    assert(only(members, name, last));
                }
            },
            FieldView::Value(value) => {
                let i = choose|i: int| #[trigger]
                    only(shorter, name, i) && shorter[i].value == value;
                assert(members[i].name == name);
                if members.last().name != name {
                    assert forall|j: int| 0 <= j < members.len() && j != i implies (
                    #[trigger] members[j]).name != name by {
                        if j < last {
                            assert(shorter[j].name != name);
                        }
                    }
                    assert(only(members, name, i));
                }
            },
            FieldView::Duplicate => {
                let (i, j) = choose|i: int, j: int|
                    0 <= i < j < shorter.len() && (#[trigger] shorter[i]).name == name && (
                    #[trigger] shorter[j]).name == name;
                assert(members[i].name == name && members[j].name == name);
            },
        }
    }
}

/// A message holds one value of a field, or nothing, or more than one value, and these exclude one
/// another.
pub proof fn fields_are_what_members_hold(
    parts: PartsView,
    name: Seq<char>,
    index: int,
    value: Seq<u8>,
)
    ensures
        field(parts, name, index) == FieldView::Value(value) <==> holds(parts, name, index, value),
        field(parts, name, index) is Missing <==> lacks(parts, name, index),
{
    if let PartsView::Members(members) = parts {
        lemma_named(members, name);
        if holds(parts, name, index, value) {
            let i = choose|i: int| #[trigger]
                only(members, name, i) && members[i].value == value;
            if let FieldView::Value(other) = named(members, name) {
                let j = choose|j: int| #[trigger]
                    only(members, name, j) && members[j].value == other;
                assert(members[i].name == name);
                assert(i == j);
            } else {
                assert(members[i].name == name);
            }
        }
        if named(members, name) is Duplicate {
            let (i, j) = choose|i: int, j: int|
                0 <= i < j < members.len() && (#[trigger] members[i]).name == name && (
                #[trigger] members[j]).name == name;
            assert(members[i].name == name);
        }
        if let FieldView::Value(other) = named(members, name) {
            let j = choose|j: int| #[trigger] only(members, name, j) && members[j].value == other;
            assert(members[j].name == name);
        }
    }
}

/// Whether a message holds a text under this name: a string literal that stands for it.
pub open spec fn holds_text(
    parts: PartsView,
    name: Seq<char>,
    index: int,
    text: Seq<char>,
) -> bool {
    exists|value: Seq<u8>| #[trigger]
        holds(parts, name, index, value) && string_value(value) == Some(text)
}

/// Whether what a message holds under this name is nothing, or `null`.
pub open spec fn holds_nothing(parts: PartsView, name: Seq<char>, index: int) -> bool {
    lacks(parts, name, index) || exists|value: Seq<u8>| #[trigger]
        holds(parts, name, index, value) && starts_like_null(value)
}

/// Whether what a message holds under this name is this text, or none where there is none.
pub open spec fn holds_optional_text(
    parts: PartsView,
    name: Seq<char>,
    index: int,
    text: Option<Seq<char>>,
) -> bool {
    match text {
        Some(text) => exists|value: Seq<u8>| #[trigger]
            holds(parts, name, index, value) && !starts_like_null(value) && string_value(value)
                == Some(text),
        None => holds_nothing(parts, name, index),
    }
}

/// Whether a message holds this JSON value under this name, byte for byte.
pub open spec fn holds_json(
    parts: PartsView,
    name: Seq<char>,
    index: int,
    json: Seq<char>,
) -> bool {
    holds(parts, name, index, encode_utf8(json))
}

/// Whether what a message holds under this name is this JSON value, byte for byte, or none where
/// there is none.
pub open spec fn holds_optional_json(
    parts: PartsView,
    name: Seq<char>,
    index: int,
    json: Option<Seq<char>>,
) -> bool {
    match json {
        Some(json) => holds_json(parts, name, index, json) && !starts_like_null(encode_utf8(json)),
        None => holds_nothing(parts, name, index),
    }
}

/// Whether a message is an object, or an array with a number of elements between these two.
pub open spec fn has_room_for(parts: PartsView, least: int, most: int) -> bool {
    parts matches PartsView::Elements(elements) ==> least <= elements.len() <= most
}

/// Whether the parts of a message hold just what this "result" response does.
pub open spec fn states_result(parts: PartsView, ok: OkView) -> bool {
    &&& has_room_for(parts, 3, 3)
    &&& holds_text(parts, "jsonrpc"@, 0, ok.jsonrpc)
    &&& holds_optional_text(parts, "id"@, 1, ok.id)
    &&& holds_json(parts, "result"@, 2, ok.result)
}

/// Whether the parts of an object hold just what these error details do.
pub open spec fn states_details(parts: PartsView, error: ErrorObjectView) -> bool {
    &&& has_room_for(parts, 3, 3)
    &&& holds_json(parts, "code"@, 0, signed_decimal(error.code as int))
    &&& holds_text(parts, "message"@, 1, error.message)
    &&& holds_optional_json(parts, "data"@, 2, error.data)
}

/// Whether the parts of a message hold just what this "error" response does.
pub open spec fn states_error(parts: PartsView, error: ErrorView) -> bool {
    &&& has_room_for(parts, 3, 3)
    &&& holds_text(parts, "jsonrpc"@, 0, error.jsonrpc)
    &&& holds_optional_text(parts, "id"@, 1, error.id)
    &&& exists|value: Seq<u8>, inner: PartsView|
        #![trigger holds(parts, "error"@, 2, value), states_details(inner, error.error)]
        holds(parts, "error"@, 2, value) && document(value) == Some(inner) && states_details(
            inner,
            error.error,
        )
}

/// Whether the parts of a message hold just what this request does. No parameters count as `null`.
pub open spec fn states_request(parts: PartsView, request: MockRequestView) -> bool {
    &&& has_room_for(parts, 3, 4)
    &&& holds_text(parts, "jsonrpc"@, 0, request.jsonrpc)
    &&& holds_optional_text(parts, "id"@, 1, request.id)
    &&& holds_text(parts, "method"@, 2, request.method)
    &&& if lacks(parts, "params"@, 3) {
        request.params == null_text()
    } else {
        holds_json(parts, "params"@, 3, request.params)
    }
}

/// A JSON value is a text just when it is its bytes.
proof fn lemma_json_text(value: Seq<u8>, text: Seq<char>)
    ensures
        value == encode_utf8(text) <==> valid_utf8(value) && decode_utf8(value) == text,
{
    encode_utf8_valid_utf8(text);
    encode_utf8_decode_utf8(text);
    if valid_utf8(value) {
        decode_utf8_encode_utf8(value);
    }
}

/// A JSON value is a number just when it is the decimal form of it.
pub proof fn numbers_are_their_decimal_forms(value: Seq<u8>, n: i32)
    ensures
        i32_value(value) == Some(n) <==> value == encode_utf8(signed_decimal(n as int)),
{
    lemma_number(n);
    if i32_value(value) == Some(n) {
        assert(is_number(value, n));
    }
}

/// A string literal stands for its content, with its escapes replaced, where that is a text.
pub proof fn literals_stand_for_their_content(value: Seq<u8>, content: Seq<u8>)
    ensures
        whole_literal(value) == Some(content) && valid_utf8(content) ==> string_value(value)
            == Some(decode_utf8(content)),
        whole_literal(value) == Some(content) && !valid_utf8(content) ==> string_value(
            value,
        ) is None,
        whole_literal(value) is None ==> string_value(value) == string_read(value),
{
}

proof fn lemma_field(parts: PartsView, name: Seq<char>, index: int)
    ensures
        field(parts, name, index) matches FieldView::Value(value) ==> holds(
            parts,
            name,
            index,
            value,
        ),
        forall|value: Seq<u8>| #[trigger]
            holds(parts, name, index, value) ==> field(parts, name, index) == FieldView::Value(
                value,
            ),
        field(parts, name, index) is Missing <==> lacks(parts, name, index),
{
    fields_are_what_members_hold(parts, name, index, seq![]);
    if let FieldView::Value(value) = field(parts, name, index) {
        fields_are_what_members_hold(parts, name, index, value);
    }
    assert forall|value: Seq<u8>| #[trigger] holds(parts, name, index, value) implies field(
        parts,
        name,
        index,
    ) == FieldView::Value(value) by {
        fields_are_what_members_hold(parts, name, index, value);
    }
}

proof fn lemma_result(parts: PartsView, ok: OkView)
    ensures
        ok_parts(parts) == Some(ok) <==> states_result(parts, ok),
{
    lemma_field(parts, "jsonrpc"@, 0);
    lemma_field(parts, "id"@, 1);
    lemma_field(parts, "result"@, 2);
    if let FieldView::Value(value) = field(parts, "result"@, 2) {
        lemma_json_text(value, ok.result);
    }
}

proof fn lemma_details(parts: PartsView, error: ErrorObjectView)
    ensures
        error_object_parts(parts) == Some(error) <==> states_details(parts, error),
{
    lemma_field(parts, "code"@, 0);
    lemma_field(parts, "message"@, 1);
    lemma_field(parts, "data"@, 2);
    if let FieldView::Value(value) = field(parts, "code"@, 0) {
        numbers_are_their_decimal_forms(value, error.code);
    }
    if let FieldView::Value(value) = field(parts, "data"@, 2) {
        if let Some(data) = error.data {
            lemma_json_text(value, data);
        }
    }
}

proof fn lemma_error(parts: PartsView, error: ErrorView)
    ensures
        error_parts(parts) == Some(error) <==> states_error(parts, error),
{
    lemma_field(parts, "jsonrpc"@, 0);
    lemma_field(parts, "id"@, 1);
    lemma_field(parts, "error"@, 2);
    if let FieldView::Value(value) = field(parts, "error"@, 2) {
        if let Some(inner) = document(value) {
            lemma_details(inner, error.error);
        }
    }
}

/// Bytes are decoded to a "result" response just when they are an object or array that holds what
/// the response does, in whatever order and among whatever other members: its version and its
/// result, once each, and its ID, or none where there is none or `null`.
pub proof fn results_are_decoded_from_their_fields(bytes: Seq<u8>, parts: PartsView, ok: OkView)
    requires
        document(bytes) == Some(parts),
    ensures
        decoded(bytes) == Some(ResponseView::Success(ok)) <==> states_result(parts, ok),
{
    lemma_result(parts, ok);
}

/// Bytes are decoded to an "error" response just when they hold no "result" response and are an
/// object or array that holds what the response does: its version and its error details, once
/// each, and its ID, or none where there is none or `null`.
pub proof fn errors_are_decoded_from_their_fields(
    bytes: Seq<u8>,
    parts: PartsView,
    error: ErrorView,
)
    requires
        document(bytes) == Some(parts),
    ensures
        decoded(bytes) == Some(ResponseView::Error(error)) <==> states_error(parts, error) && (
        forall|ok: OkView| !#[trigger] states_result(parts, ok)),
{
    lemma_error(parts, error);
    assert forall|ok: OkView| #[trigger] states_result(parts, ok) implies ok_parts(parts) == Some(
        ok,
    ) by {
        lemma_result(parts, ok);
    }
    if let Some(ok) = ok_parts(parts) {
        lemma_result(parts, ok);
    }
}

/// Bytes that are no object or array, or one that holds neither response, are not decoded.
pub proof fn nothing_else_is_decoded(bytes: Seq<u8>)
    ensures
        document(bytes) is None ==> decoded(bytes) is None && request_decoded(bytes) is None,
        document(bytes) matches Some(parts) ==> (decoded(bytes) is None <==> (forall|ok: OkView|
            !#[trigger] states_result(parts, ok)) && (forall|error: ErrorView|
            !#[trigger] states_error(parts, error))),
{
    if let Some(parts) = document(bytes) {
        assert forall|ok: OkView| #[trigger] states_result(parts, ok) implies ok_parts(parts)
            == Some(ok) by {
            lemma_result(parts, ok);
        }
        assert forall|error: ErrorView| #[trigger] states_error(parts, error) implies error_parts(
            parts,
        ) == Some(error) by {
            lemma_error(parts, error);
        }
        if let Some(ok) = ok_parts(parts) {
            lemma_result(parts, ok);
        }
        if let Some(error) = error_parts(parts) {
            lemma_error(parts, error);
        }
    }
}

/// Error details have data just where the object holds some: an object in which nothing is called
/// "data", or in which that is `null`, gives none, and any other gives what it holds, byte for
/// byte.
pub proof fn data_is_what_was_sent(bytes: Seq<u8>, parts: PartsView, error: ErrorObjectView)
    requires
        document(bytes) == Some(parts),
        error_object_decoded(bytes) == Some(error),
    ensures
        lacks(parts, "data"@, 2) ==> error.data is None,
        error.data matches Some(data) ==> holds(parts, "data"@, 2, encode_utf8(data)),
        forall|value: Seq<u8>| #[trigger]
            holds(parts, "data"@, 2, value) && !starts_like_null(value) ==> error.data == Some(
                decode_utf8(value),
            ) && value == encode_utf8(decode_utf8(value)),
{
    lemma_details(parts, error);
    lemma_field(parts, "data"@, 2);
    assert forall|value: Seq<u8>| #[trigger]
        holds(parts, "data"@, 2, value) && !starts_like_null(value) implies error.data == Some(
        decode_utf8(value),
    ) && value == encode_utf8(decode_utf8(value)) by {
        if let Some(data) = error.data {
            lemma_json_text(value, data);
        }
    }
}

/// So of a whole response: an error response has data just where the object that it holds as its
/// error does, and then that data.
pub proof fn error_responses_have_the_data_that_was_sent(
    bytes: Seq<u8>,
    parts: PartsView,
    error: ErrorView,
    value: Seq<u8>,
    inner: PartsView,
)
    requires
        document(bytes) == Some(parts),
        decoded(bytes) == Some(ResponseView::Error(error)),
        holds(parts, "error"@, 2, value),
        document(value) == Some(inner),
    ensures
        lacks(inner, "data"@, 2) ==> error.error.data is None,
        error.error.data matches Some(data) ==> holds(inner, "data"@, 2, encode_utf8(data)),
        forall|data: Seq<u8>| #[trigger]
            holds(inner, "data"@, 2, data) && !starts_like_null(data) ==> error.error.data == Some(
                decode_utf8(data),
            ),
        holds(inner, "code"@, 0, encode_utf8(signed_decimal(error.error.code as int))),
        holds_text(inner, "message"@, 1, error.error.message),
{
    lemma_field(parts, "error"@, 2);
    lemma_details(inner, error.error);
    data_is_what_was_sent(value, inner, error.error);
}

/// Bytes are decoded to a request just when they are an object or array that holds what the
/// request does.
pub proof fn requests_are_decoded_from_their_fields(
    bytes: Seq<u8>,
    parts: PartsView,
    request: MockRequestView,
)
    requires
        document(bytes) == Some(parts),
    ensures
        request_decoded(bytes) == Some(request) <==> states_request(parts, request),
{
    lemma_field(parts, "jsonrpc"@, 0);
    lemma_field(parts, "id"@, 1);
    lemma_field(parts, "method"@, 2);
    lemma_field(parts, "params"@, 3);
    if let FieldView::Value(value) = field(parts, "params"@, 3) {
        lemma_json_text(value, request.params);
    }
}

} // verus!
