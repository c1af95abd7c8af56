//! What calls of the library come to, said of what goes into them and what comes out: responses,
//! parameters, and the messages of the client.
use crate::backend::mock::{MockRequest, MockRequestView};
use crate::backend::BackendSender;
use crate::client::{notification_bytes, Client, PendingRequest};
use crate::compose::members_of;
use crate::decoding::{
    requests_are_decoded_from_their_fields, starts_like_null, states_request,
};
use crate::from_response::{De, DeError, FromResponse, Raw, RawError};
use crate::grammar::{blank, lemma_skipped_is_blank, lemma_skips_blank};
use crate::json::{
    is_space, is_value, json_in, quoted, skip_space, string_value, value_len, RawJson,
};
use crate::layout::{document, PartsView};
use crate::literal::literal_is_read_back;
use crate::params::{
    built, named_pairs, named_parameters_are_read_back, named_text,
    unnamed_parameters_are_read_back, unnamed_text, ArrayParams, IntoRpcParams, ObjectParams,
    RpcParams,
};
use crate::raw_response::{
    decoded, response_pairs, ErrorObject, ErrorResponse, OkResponse, RawResponse, ResponseError,
    ResponseView,
};
use crate::response;
use crate::response::Response;
use crate::response_stream::{Filter, ResponseStreamInner};
use crate::text::{decimal, signed_decimal};
use std::sync::Arc;
use vstd::prelude::*;
use vstd::utf8::{decode_utf8, encode_utf8, encode_utf8_decode_utf8};

verus! {

/// Whether `parse` was handed this text and made this of it.
pub open spec fn made<R, P: FnOnce(&str) -> Result<R, serde_json::Error>>(
    parse: P,
    text: Seq<char>,
    parsed: Result<R, serde_json::Error>,
) -> bool {
    exists|t: &str| t@ == text && #[trigger] call_ensures(parse, (t,), parsed)
}

/// The result of a response is what `parse` makes of the very JSON that came as its result. An
/// error response has none.
pub proof fn results_are_parsed_as_they_came<R, P: FnOnce(&str) -> Result<R, serde_json::Error>>(
    response: &Response,
    parse: P,
    r: Result<R, response::ResponseError>,
)
    requires
        call_ensures(Response::ok_into::<R, P>, (response, parse), r),
    ensures
        response@ matches ResponseView::Success(ok) ==> match r {
            Ok(value) => made(parse, ok.result, Ok(value)),
            Err(response::ResponseError::Deserialize(error)) => made(
                parse,
                ok.result,
                Err::<R, serde_json::Error>(error),
            ),
            Err(response::ResponseError::WrongResponse) => false,
        },
        response@ is Error ==> r matches Err(response::ResponseError::WrongResponse),
{
}

/// The details of an error response are its code, its message, and what `parse` makes of the very
/// JSON that came as its data, or of `null` where there came none. A result has no such details.
pub proof fn error_details_are_parsed_as_they_came<
    Data,
    P: FnOnce(&str) -> Result<Data, serde_json::Error>,
>(response: &Response, parse: P, r: Result<response::ErrorObject<Data>, response::ResponseError>)
    requires
        call_ensures(Response::error_into::<Data, P>, (response, parse), r),
    ensures
        response@ is Success ==> r matches Err(response::ResponseError::WrongResponse),
        response@ matches ResponseView::Error(e) ==> match r {
            Ok(object) => {
                &&& object.code == e.error.code
                &&& object.message@ == e.error.message
                &&& e.error.data matches Some(text) ==> made(parse, text, Ok(object.data))
                &&& e.error.data is None ==> made(
                    parse,
                    seq!['n', 'u', 'l', 'l'],
                    Ok(object.data),
                )
            },
            Err(response::ResponseError::Deserialize(error)) => {
                &&& e.error.data matches Some(text) ==> made(
                    parse,
                    text,
                    Err::<Data, serde_json::Error>(error),
                )
                &&& e.error.data is None ==> made(
                    parse,
                    seq!['n', 'u', 'l', 'l'],
                    Err::<Data, serde_json::Error>(error),
                )
            },
            Err(response::ResponseError::WrongResponse) => false,
        },
{
}

/// What is asked for of a result is what `parse` makes of the very JSON that came as it. An error
/// response is handed back whole.
pub proof fn asked_results_are_parsed_as_they_came<
    T,
    P: FnOnce(&str) -> Result<T, serde_json::Error>,
>(response: Arc<RawResponse<'static>>, parse: P, r: Result<T, DeError>)
    requires
        call_ensures(De::<T>::from_response::<P>, (response, parse), r),
    ensures
        response@ matches ResponseView::Success(ok) ==> match r {
            Ok(value) => made(parse, ok.result, Ok(value)),
            Err(DeError::Deserialize(error)) => made(
                parse,
                ok.result,
                Err::<T, serde_json::Error>(error),
            ),
            Err(DeError::Rpc(_)) => false,
        },
        response@ is Error ==> (r matches Err(DeError::Rpc(raw)) && raw@ == response@),
{
}

/// A raw response is handed back as it came, and reading it again gives the same.
pub proof fn raw_responses_are_handed_back(
    response: Arc<RawResponse<'static>>,
    r: Result<Raw, RawError>,
    raw: &Raw,
    read: &RawResponse<'static>,
)
    requires
        call_ensures(<Raw as FromResponse>::from_response, (response,), r),
        r == Ok::<Raw, RawError>(*raw),
        call_ensures(Raw::response, (raw,), read),
    ensures
        read@ == response@,
{
}

/// What a response shows is what its fields hold.
pub proof fn responses_show_their_fields<'a>(
    ok: OkResponse<'a>,
    error: ErrorResponse<'a>,
    details: ErrorObject<'a>,
)
    ensures
        RawResponse::Success(ok)@ == ResponseView::Success(ok@),
        RawResponse::Error(error)@ == ResponseView::Error(error@),
        ok@.jsonrpc == ok.jsonrpc@,
        ok@.result == ok.result@,
        ok.id is None <==> ok@.id is None,
        ok.id matches Some(id) ==> ok@.id == Some(id@),
        error@.jsonrpc == error.jsonrpc@,
        error@.error == error.error@,
        error.id is None <==> error@.id is None,
        error.id matches Some(id) ==> error@.id == Some(id@),
        details@.code == details.code,
        details@.message == details.message@,
        details.data is None <==> details@.data is None,
        details.data matches Some(data) ==> details@.data == Some(data@),
{
}

/// The ID of a response is the one that it holds, also if it is empty.
pub proof fn ids_are_what_responses_hold<'a>(response: &RawResponse<'a>, id: Option<&str>)
    requires
        call_ensures(RawResponse::<'a>::id, (response,), id),
    ensures
        response@ matches ResponseView::Success(ok) ==> match id {
            Some(text) => ok.id == Some(text@),
            None => ok.id is None,
        },
        response@ matches ResponseView::Error(error) ==> match id {
            Some(text) => error.id == Some(text@),
            None => error.id is None,
        },
{
}

/// Bytes are decoded just where they hold a response of version 2.0, and then to that response.
/// Those that hold one of another version are refused as such, and all others with what `explain`
/// says of them; either way they are handed back.
pub proof fn messages_are_decoded_or_refused<'a, P: FnOnce(&[u8]) -> serde_json::Error>(
    bytes: &'a [u8],
    explain: P,
    r: Result<RawResponse<'a>, ResponseError>,
)
    requires
        call_ensures(RawResponse::from_bytes::<P>, (bytes, explain), r),
    ensures
        decoded(bytes@) is None ==> (r matches Err(
            ResponseError::Deserialize { error, bytes: copy },
        ) && copy@ == bytes@ && exists|b: &[u8]|
            b@ == bytes@ && #[trigger] call_ensures(explain, (b,), error)),
        decoded(bytes@) matches Some(ResponseView::Success(ok)) ==> if ok.jsonrpc == "2.0"@ {
            r matches Ok(response) && response@ == ResponseView::Success(ok)
        } else {
            r matches Err(ResponseError::InvalidVersion { bytes: copy }) && copy@ == bytes@
        },
        decoded(bytes@) matches Some(ResponseView::Error(error)) ==> if error.jsonrpc == "2.0"@ {
            r matches Ok(response) && response@ == ResponseView::Error(error)
        } else {
            r matches Err(ResponseError::InvalidVersion { bytes: copy }) && copy@ == bytes@
        },
{
}

/// A response is written as an object with its version, its ID or `null`, and its result or error,
/// from which it is decoded again. Data that is `null` is decoded to none.
pub proof fn responses_are_written_to_be_decoded<'a>(response: &RawResponse<'a>, json: RawJson)
    requires
        call_ensures(RawResponse::<'a>::to_json, (response,), json),
    ensures
        ({
            let bytes = encode_utf8(json@);
            &&& document(bytes) matches Some(PartsView::Members(members)) && {
                &&& members.len() == 3
                &&& members[0].name == "jsonrpc"@
                &&& members[1].name == "id"@
                &&& response@ matches ResponseView::Success(ok) ==> string_value(members[0].value)
                    == Some(ok.jsonrpc) && match ok.id {
                    Some(id) => string_value(members[1].value) == Some(id),
                    None => members[1].value == encode_utf8(seq!['n', 'u', 'l', 'l']),
                }
                &&& response@ matches ResponseView::Error(error) ==> string_value(members[0].value)
                    == Some(error.jsonrpc) && match error.id {
                    Some(id) => string_value(members[1].value) == Some(id),
                    None => members[1].value == encode_utf8(seq!['n', 'u', 'l', 'l']),
                }
                &&& members[2].name == (if response@ is Success {
                    "result"@
                } else {
                    "error"@
                })
                &&& response@ matches ResponseView::Success(ok) ==> members[2].value
                    == encode_utf8(ok.result)
            }
            &&& response@ is Success ==> decoded(bytes) == Some(response@)
            &&& response@ matches ResponseView::Error(e) ==> (e.error.data is None
                ==> decoded(bytes) == Some(response@))
            &&& response@ matches ResponseView::Error(e) ==> (e.error.data matches Some(data)
                ==> !starts_like_null(encode_utf8(data)) ==> decoded(bytes) == Some(response@))
        }),
{
    let pairs = response_pairs(response@);
    match response@ {
        ResponseView::Success(ok) => {
            literal_is_read_back(ok.jsonrpc);
            if let Some(id) = ok.id {
                literal_is_read_back(id);
            }
        },
        ResponseView::Error(error) => {
            literal_is_read_back(error.jsonrpc);
            if let Some(id) = error.id {
                literal_is_read_back(id);
            }
        },
    }
    let members = members_of(pairs);
    assert(members[0] == pairs[0].member());
    assert(members[1] == pairs[1].member());
    assert(members[2] == pairs[2].member());
}

/// Inserting a named parameter writes a brace or a comma, its name, a colon, and behind that just
/// what was written of its value. What came of serializing it is handed back, and changes nothing.
pub proof fn named_parameters_are_written_behind(
    builder: &mut ObjectParams,
    name: &str,
    written: &str,
    outcome: Result<(), serde_json::Error>,
    r: Result<(), serde_json::Error>,
)
    requires
        call_ensures(ObjectParams::insert, (builder, name, written, outcome), r),
    ensures
        old(builder)@.len() == 0 ==> final(builder)@ == seq!['{'] + quoted(name@) + seq![':']
            + written@,
        old(builder)@.len() > 0 ==> final(builder)@ == old(builder)@ + seq![','] + quoted(name@)
            + seq![':'] + written@,
        r == outcome,
{
    if old(builder)@.len() > 0 {
        assert(old(builder)@.push(',') =~= old(builder)@ + seq![',']);
    }
}

/// Inserting a parameter writes a bracket or a comma, and behind that just what was written of its
/// value. What came of serializing it is handed back, and changes nothing.
pub proof fn parameters_are_written_behind(
    builder: &mut ArrayParams,
    written: &str,
    outcome: Result<(), serde_json::Error>,
    r: Result<(), serde_json::Error>,
)
    requires
        call_ensures(ArrayParams::insert, (builder, written, outcome), r),
    ensures
        old(builder)@.len() == 0 ==> final(builder)@ == seq!['['] + written@,
        old(builder)@.len() > 0 ==> final(builder)@ == old(builder)@ + seq![','] + written@,
        r == outcome,
{
    if old(builder)@.len() > 0 {
        assert(old(builder)@.push(',') =~= old(builder)@ + seq![',']);
    }
}

/// A text that is white space and a JSON value behind it holds just that value; and what any text
/// holds is a JSON value with nothing but white space round it.
pub proof fn texts_hold_their_values(space: Seq<u8>, value: Seq<char>, text: Seq<char>)
    requires
        blank(space),
        is_value(encode_utf8(value)),
    ensures
        encode_utf8(text) == space + encode_utf8(value) ==> json_in(text) == Ok::<
            Seq<char>,
            serde_json::Error,
        >(value),
        json_in(text) matches Ok(held) ==> exists|i: int, n: int|
            0 <= i <= i + n <= encode_utf8(text).len() && blank(encode_utf8(text).take(i))
                && held == decode_utf8(#[trigger] encode_utf8(text).subrange(i, i + n)) && blank(
                encode_utf8(text).skip(i + n),
            ),
{
    let s = encode_utf8(text);
    if s == space + encode_utf8(value) {
        let v = encode_utf8(value);
        assert(s[space.len() as int] == v[0]);
        assert forall|k: int| 0 <= k < space.len() implies is_space(#[trigger] s[k]) by {
            assert(s[k] == space[k]);
        }
        lemma_skips_blank(s, 0, space.len() as int);
        assert(v + seq![] =~= v);
        assert(s.skip(space.len() as int) =~= v);
        assert(value_len(v + seq![]) == Some(v.len()));
        assert(s.subrange(space.len() as int, (space.len() + v.len()) as int) =~= v);
        encode_utf8_decode_utf8(value);
    }
    if let Ok(held) = json_in(text) {
        let i = skip_space(s, 0);
        let n = value_len(s.skip(i))->0 as int;
        lemma_skipped_is_blank(s, 0);
        lemma_skipped_is_blank(s, i + n);
        assert(s.take(i) =~= s.subrange(0, i));
        assert(s.skip(i + n) =~= s.subrange(i + n, s.len() as int));
        assert(held == decode_utf8(s.subrange(i, i + n)));
    }
}

/// Raw JSON is made of a text just where the text holds a JSON value, and is that value.
pub proof fn raw_json_is_what_a_text_holds(text: String, r: Result<RawJson, serde_json::Error>)
    requires
        call_ensures(RawJson::from_string, (text,), r),
        is_value(encode_utf8(text@)),
    ensures
        r matches Ok(json) && json@ == text@,
{
    assert(seq![] + encode_utf8(text@) =~= encode_utf8(text@));
    texts_hold_their_values(seq![], text@, text@);
}

/// What a builder is turned into is what has been written, with its closing mark: nothing where
/// nothing has been written, and something wherever anything has been. Where that is JSON, it is
/// kept character for character.
pub proof fn builders_are_turned_into_what_they_hold(
    object: ObjectParams,
    named: RpcParams,
    array: ArrayParams,
    unnamed: RpcParams,
)
    requires
        call_ensures(<ObjectParams as IntoRpcParams>::into_rpc_params, (object,), named),
        call_ensures(<ArrayParams as IntoRpcParams>::into_rpc_params, (array,), unnamed),
    ensures
        object@.len() == 0 <==> named is None,
        array@.len() == 0 <==> unnamed is None,
        object.rpc_bytes() == built(object@, '}'),
        array.rpc_bytes() == built(array@, ']'),
        json_in(object@.push('}')) is Ok ==> is_built_to(object@, '}', Some(named)),
        json_in(array@.push(']')) is Ok ==> is_built_to(array@, ']', Some(unnamed)),
        object@.len() > 0 && is_value(encode_utf8(object@.push('}'))) ==> (named matches Some(json)
            && encode_utf8(json@) == encode_utf8(object@.push('}'))),
        array@.len() > 0 && is_value(encode_utf8(array@.push(']'))) ==> (unnamed matches Some(json)
            && encode_utf8(json@) == encode_utf8(array@.push(']'))),
{
    if object@.len() > 0 && is_value(encode_utf8(object@.push('}'))) {
        let text = object@.push('}');
        assert(seq![] + encode_utf8(text) =~= encode_utf8(text));
        texts_hold_their_values(seq![], text, text);
    }
    if array@.len() > 0 && is_value(encode_utf8(array@.push(']'))) {
        let text = array@.push(']');
        assert(seq![] + encode_utf8(text) =~= encode_utf8(text));
        texts_hold_their_values(seq![], text, text);
    }
}

/// Whether this is what a text with its closing mark can be built to: nothing where it is empty,
/// itself where it is JSON, and else the JSON in it, or nothing at all where there is none.
pub open spec fn is_built_to(text: Seq<char>, close: char, params: Option<RpcParams>) -> bool {
    let whole = text.push(close);
    &&& text.len() == 0 ==> (params matches Some(None))
    &&& text.len() > 0 ==> match params {
        Some(Some(json)) => json_in(whole) matches Ok(held) && encode_utf8(held) == encode_utf8(
            json@,
        ),
        Some(None) => false,
        None => json_in(whole) is Err,
    }
    &&& text.len() > 0 && is_value(encode_utf8(whole)) ==> (params matches Some(Some(json))
        && encode_utf8(json@) == encode_utf8(whole))
}

/// A builder can be built just where what it holds makes up JSON, or is nothing.
pub proof fn builders_are_built_or_not(
    object: ObjectParams,
    named: Option<RpcParams>,
    array: ArrayParams,
    unnamed: Option<RpcParams>,
)
    requires
        call_ensures(ObjectParams::try_build, (object,), named),
        call_ensures(ArrayParams::try_build, (array,), unnamed),
    ensures
        is_built_to(object@, '}', named),
        is_built_to(array@, ']', unnamed),
{
    lemma_built(object@, '}');
    lemma_built(array@, ']');
}

/// What a builder is built to is what it could be built to.
pub proof fn builders_are_built(
    object: ObjectParams,
    named: RpcParams,
    array: ArrayParams,
    unnamed: RpcParams,
)
    requires
        object@.len() > 0 ==> json_in(object@.push('}')) is Ok,
        array@.len() > 0 ==> json_in(array@.push(']')) is Ok,
        call_ensures(ObjectParams::build, (object,), named),
        call_ensures(ArrayParams::build, (array,), unnamed),
    ensures
        is_built_to(object@, '}', Some(named)),
        is_built_to(array@, ']', Some(unnamed)),
{
    lemma_built(object@, '}');
    lemma_built(array@, ']');
}

proof fn lemma_built(text: Seq<char>, close: char)
    ensures
        is_value(encode_utf8(text.push(close))) ==> json_in(text.push(close)) == Ok::<
            Seq<char>,
            serde_json::Error,
        >(text.push(close)),
{
    let whole = text.push(close);
    if is_value(encode_utf8(whole)) {
        assert(seq![] + encode_utf8(whole) =~= encode_utf8(whole));
        texts_hold_their_values(seq![], whole, whole);
    }
}

/// Named parameters go out as an object with just the names and values that were inserted, in
/// their order: whatever they are, as long as there are any and the values are JSON.
pub proof fn named_parameters_go_out_whole(
    params: Seq<(Seq<char>, Seq<char>)>,
    builder: ObjectParams,
    out: RpcParams,
)
    requires
        params.len() > 0,
        forall|k: int| 0 <= k < params.len() ==> is_value(encode_utf8((#[trigger] params[k]).1)),
        builder@ == named_text(params),
        call_ensures(<ObjectParams as IntoRpcParams>::into_rpc_params, (builder,), out),
    ensures
        builder.complete(),
        builder.rpc_bytes() matches Some(bytes) && document(bytes) matches Some(
            PartsView::Members(members),
        ) && {
            &&& members.len() == params.len()
            &&& forall|k: int|
                #![trigger members[k]]
                0 <= k < params.len() ==> members[k].name == params[k].0 && members[k].value
                    == encode_utf8(params[k].1)
        },
        out matches Some(json) && builder.rpc_bytes() == Some(encode_utf8(json@)),
{
    named_parameters_are_read_back(params);
    let pairs = named_pairs(params);
    let members = members_of(pairs);
    assert forall|k: int| #![trigger members[k]] 0 <= k < params.len() implies members[k].name
        == params[k].0 && members[k].value == encode_utf8(params[k].1) by {
        assert(members[k] == pairs[k].member());
    }
}

/// Unnamed parameters go out as an array of just the values that were inserted, in their order.
pub proof fn unnamed_parameters_go_out_whole(
    params: Seq<Seq<char>>,
    builder: ArrayParams,
    out: RpcParams,
)
    requires
        params.len() > 0,
        forall|k: int| 0 <= k < params.len() ==> is_value(encode_utf8(#[trigger] params[k])),
        builder@ == unnamed_text(params),
        call_ensures(<ArrayParams as IntoRpcParams>::into_rpc_params, (builder,), out),
    ensures
        builder.complete(),
        builder.rpc_bytes() matches Some(bytes) && document(bytes) matches Some(
            PartsView::Elements(elements),
        ) && {
            &&& elements.len() == params.len()
            &&& forall|k: int|
                #![trigger elements[k]]
                0 <= k < params.len() ==> elements[k] == encode_utf8(params[k])
        },
        out matches Some(json) && builder.rpc_bytes() == Some(encode_utf8(json@)),
{
    unnamed_parameters_are_read_back(params);
}

/// Parameters that are there already go out as they are.
pub proof fn ready_parameters_go_out_as_they_are(params: RpcParams, out: RpcParams)
    requires
        call_ensures(<RpcParams as IntoRpcParams>::into_rpc_params, (params,), out),
    ensures
        params.complete(),
        params is None <==> out is None,
        params is None <==> params.rpc_bytes() is None,
        params matches Some(json) ==> params.rpc_bytes() == Some(encode_utf8(json@)) && (
        out matches Some(sent) && encode_utf8(sent@) == encode_utf8(json@)),
{
}

/// A request that is made is an object that says version 2.0, the number of the request as its ID,
/// its method, and its parameters where there are some, byte for byte, and nothing else. It is
/// handed to the sender, and its stream, which has nothing yet, takes the responses with its ID.
pub proof fn requests_go_out_whole<
    S: BackendSender,
    Params: IntoRpcParams,
    W,
    F: Fn(&RawResponse<'_>) -> bool,
>(
    client: &mut Client<S>,
    inner: &mut ResponseStreamInner<W, F>,
    method: &str,
    params: Params,
    r: (S::Sending, PendingRequest),
)
    requires
        call_ensures(Client::<S>::request::<Params, W, F>, (client, inner, method, params), r),
    ensures
        document(r.1.message()) matches Some(PartsView::Members(members)) && {
            &&& members.len() == (if params.rpc_bytes() is Some {
                4int
            } else {
                3int
            })
            &&& members[0].name == "jsonrpc"@ && string_value(members[0].value) == Some("2.0"@)
            &&& members[1].name == "id"@ && string_value(members[1].value) == Some(
                decimal(old(client).next_id() as nat),
            )
            &&& members[2].name == "method"@ && string_value(members[2].value) == Some(method@)
            &&& params.rpc_bytes() matches Some(bytes) ==> members[3].name == "params"@
                && members[3].value == bytes
        },
        exists|data: &[u8]|
            data@ == r.1.message() && #[trigger] call_ensures(
                S::send,
                (&old(client).sender(), data),
                r.0,
            ),
        old(client).next_id() < u64::MAX ==> final(client).next_id() == old(client).next_id() + 1,
        final(client).sender() == old(client).sender(),
        r.1.stream().id == old(inner)@.next_id,
        r.1.stream().queue.len() == 0,
        ({
            let before = old(inner)@.instances;
            let after = final(inner)@.instances;
            &&& after.len() == before.len() + 1
            &&& forall|i: int| 0 <= i < before.len() ==> #[trigger] after[i] == before[i]
            &&& after.last().id == old(inner)@.next_id
            &&& after.last().queue.len() == 0
            &&& after.last().waker is None
            &&& after.last().filter matches Filter::Reply(id) && id@ == decimal(
                old(client).next_id() as nat,
            )
            &&& final(inner)@.done == old(inner)@.done
        }),
{
}

/// A request that is prepared is the one that would be sent.
pub proof fn prepared_requests_are_whole<
    S: BackendSender,
    Params: IntoRpcParams,
    W,
    F: Fn(&RawResponse<'_>) -> bool,
>(
    client: &mut Client<S>,
    inner: &mut ResponseStreamInner<W, F>,
    method: &str,
    params: Params,
    pending: PendingRequest,
)
    requires
        call_ensures(
            Client::<S>::prepare_request::<Params, W, F>,
            (client, inner, method, params),
            pending,
        ),
    ensures
        document(pending.message()) matches Some(PartsView::Members(members)) && {
            &&& members.len() == (if params.rpc_bytes() is Some {
                4int
            } else {
                3int
            })
            &&& members[0].name == "jsonrpc"@ && string_value(members[0].value) == Some("2.0"@)
            &&& members[1].name == "id"@ && string_value(members[1].value) == Some(
                decimal(old(client).next_id() as nat),
            )
            &&& members[2].name == "method"@ && string_value(members[2].value) == Some(method@)
            &&& params.rpc_bytes() matches Some(bytes) ==> members[3].name == "params"@
                && members[3].value == bytes
        },
        old(client).next_id() < u64::MAX ==> final(client).next_id() == old(client).next_id() + 1,
        final(client).sender() == old(client).sender(),
        pending.stream().id == old(inner)@.next_id,
        pending.stream().queue.len() == 0,
        ({
            let before = old(inner)@.instances;
            let after = final(inner)@.instances;
            &&& after.len() == before.len() + 1
            &&& forall|i: int| 0 <= i < before.len() ==> #[trigger] after[i] == before[i]
            &&& after.last().id == old(inner)@.next_id
            &&& after.last().queue.len() == 0
            &&& after.last().waker is None
            &&& after.last().filter matches Filter::Reply(id) && id@ == decimal(
                old(client).next_id() as nat,
            )
            &&& final(inner)@.done == old(inner)@.done
        }),
{
}

/// Sending a request hands its bytes to the sender.
pub proof fn prepared_requests_are_sent<S: BackendSender>(
    client: &Client<S>,
    pending: &PendingRequest,
    sending: S::Sending,
)
    requires
        call_ensures(Client::<S>::send_request, (client, pending), sending),
    ensures
        exists|data: &[u8]|
            data@ == pending.message() && #[trigger] call_ensures(
                S::send,
                (&client.sender(), data),
                sending,
            ),
{
}

/// A notification is an object that says version 2.0, its method, and its parameters where there
/// are some, byte for byte, and nothing else. It is handed to the sender, and changes nothing.
pub proof fn notifications_go_out_whole<S: BackendSender, Params: IntoRpcParams>(
    client: &mut Client<S>,
    method: &str,
    params: Params,
    sending: S::Sending,
)
    requires
        call_ensures(Client::<S>::notification::<Params>, (client, method, params), sending),
    ensures
        exists|data: &[u8]|
            {
                &&& #[trigger] call_ensures(S::send, (&old(client).sender(), data), sending)
                &&& document(data@) matches Some(PartsView::Members(members)) && {
                    &&& members.len() == (if params.rpc_bytes() is Some {
                        3int
                    } else {
                        2int
                    })
                    &&& members[0].name == "jsonrpc"@
                    &&& string_value(members[0].value) == Some("2.0"@)
                    &&& members[1].name == "method"@
                    &&& string_value(members[1].value) == Some(method@)
                    &&& params.rpc_bytes() matches Some(bytes) ==> members[2].name == "params"@
                        && members[2].value == bytes
                }
            },
        *final(client) == *old(client),
{
    let bytes = notification_bytes(method@, params.rpc_bytes());
    let data = choose|data: &[u8]|
        data@ == bytes && #[trigger] call_ensures(S::send, (&old(client).sender(), data), sending);
    assert(call_ensures(S::send, (&old(client).sender(), data), sending));
}

/// A request is decoded from bytes just where they hold it.
pub proof fn requests_are_decoded_or_not(bytes: &[u8], r: Option<MockRequest>, parts: PartsView)
    requires
        call_ensures(MockRequest::from_slice, (bytes,), r),
    ensures
        document(bytes@) is None ==> r is None,
        document(bytes@) == Some(parts) ==> match r {
            Some(request) => states_request(parts, request@),
            None => forall|request: MockRequestView| !#[trigger] states_request(parts, request),
        },
{
    if document(bytes@) == Some(parts) {
        assert forall|request: MockRequestView| #[trigger] states_request(
            parts,
            request,
        ) implies r is Some by {
            requests_are_decoded_from_their_fields(bytes@, parts, request);
        }
        if let Some(request) = r {
            requests_are_decoded_from_their_fields(bytes@, parts, request@);
        }
    }
}

/// A decoded request shows what its fields hold.
pub proof fn requests_show_their_fields(request: MockRequest)
    ensures
        request@.jsonrpc == request.jsonrpc@,
        request@.method == request.method@,
        request@.params == request.params@,
        request.id is None <==> request@.id is None,
        request.id matches Some(id) ==> request@.id == Some(id@),
{
}

/// What error details are described with: their code and their message.
pub proof fn descriptions_name_code_and_message<'a>(error: &ErrorObject<'a>, text: String)
    requires
        call_ensures(ErrorObject::<'a>::to_string, (error,), text),
    ensures
        text@ == "Error "@ + signed_decimal(error.code as int) + ": "@ + error.message@,
{
}

} // verus!
