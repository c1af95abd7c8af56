//! What a server reads from the messages of the client, and where its answers go.
use crate::backend::mock::{
    decodes_back, refusal, request_decoded, request_parts, response_bytes, MockRequestView,
};
use crate::client::{call_bytes, notification_bytes, request_bytes};
use crate::compose::{
    all_wf, members_of, object_body, object_bytes, object_is_value, pair, PairView,
};
use crate::fields::{lemma_named_missing, lemma_named_once, named, FieldView};
use crate::json::{escaped, is_value, needs_no_escape, null_text, quoted, string_value, QUOTE};
use crate::laws::{got, reply_reaches_its_request};
use crate::layout::{document, MemberView, PartsView, CLOSE_OBJECT, COLON, COMMA, OPEN_OBJECT};
use crate::literal::{lemma_encode_concat, lemma_escaped, literal_is_read_back};
use crate::params::{params_bytes, RpcParams};
use crate::raw_response::{decoded, RawResponse, ResponseView};
use crate::response_stream::{Filter, InnerView, ResponseStreamItem};
use crate::text::{decimal, lemma_decimal_digits};
use vstd::prelude::*;
use vstd::utf8::{
    decode_utf8, encode_utf8, encode_utf8_decode_utf8, encode_utf8_valid_utf8,
    is_ascii_chars_encode_utf8,
};

verus! {

/// The members of the end of a message, from its method on.
pub open spec fn call_pairs(method: Seq<char>, params: Option<Seq<u8>>) -> Seq<PairView> {
    match params {
        Some(params) => seq![
            pair("method"@, encode_utf8(quoted(method))),
            pair("params"@, params),
        ],
        None => seq![pair("method"@, encode_utf8(quoted(method)))],
    }
}

/// The members of a message, in their order.
pub open spec fn message_pairs(
    id: Option<Seq<char>>,
    method: Seq<char>,
    params: Option<Seq<u8>>,
) -> Seq<PairView> {
    let version = seq![pair("jsonrpc"@, encode_utf8(quoted("2.0"@)))];
    let id = match id {
        Some(id) => seq![pair("id"@, encode_utf8(quoted(id)))],
        None => seq![],
    };
    version + id + call_pairs(method, params)
}

/// What a message tells a server. Without parameters it tells it `null`.
pub open spec fn told(
    id: Option<Seq<char>>,
    method: Seq<char>,
    params: Option<Seq<u8>>,
) -> MockRequestView {
    MockRequestView {
        jsonrpc: "2.0"@,
        id,
        method,
        params: match params {
            Some(params) => decode_utf8(params),
            None => null_text(),
        },
    }
}

proof fn lemma_names()
    ensures
        "jsonrpc"@ != "id"@,
        "jsonrpc"@ != "method"@,
        "jsonrpc"@ != "params"@,
        "id"@ != "method"@,
        "id"@ != "params"@,
        "method"@ != "params"@,
        needs_no_escape("jsonrpc"@),
        needs_no_escape("id"@),
        needs_no_escape("method"@),
        needs_no_escape("params"@),
        needs_no_escape("2.0"@),
{
    reveal_strlit("jsonrpc");
    reveal_strlit("id");
    reveal_strlit("method");
    reveal_strlit("params");
    reveal_strlit("2.0");
    assert("jsonrpc"@[0] == 'j');
    assert("id"@[0] == 'i');
    assert("method"@[0] == 'm');
    assert("params"@[0] == 'p');
}

proof fn lemma_pair_wf(name: Seq<char>, value: Seq<u8>)
    requires
        is_value(value),
    ensures
        pair(name, value).wf(),
{
    literal_is_read_back(name);
}

/// The members of a message are put together from JSON values.
proof fn lemma_message_pairs_wf(id: Option<Seq<char>>, method: Seq<char>, params: RpcParams)
    requires
        params matches Some(json) ==> json.holds_value(),
    ensures
        all_wf(message_pairs(id, method, params_bytes(params))),
{
    lemma_names();
    literal_is_read_back("2.0"@);
    literal_is_read_back(method);
    lemma_pair_wf("jsonrpc"@, encode_utf8(quoted("2.0"@)));
    lemma_pair_wf("method"@, encode_utf8(quoted(method)));
    if let Some(id) = id {
        literal_is_read_back(id);
        lemma_pair_wf("id"@, encode_utf8(quoted(id)));
    }
    if let Some(json) = params {
        lemma_pair_wf("params"@, encode_utf8(json@));
    }
}

/// The fields of a message are found under their names.
proof fn lemma_fields_found(
    members: Seq<MemberView>,
    id: Option<Seq<char>>,
    method: Seq<char>,
    params: Option<Seq<u8>>,
)
    requires
        members == members_of(message_pairs(id, method, params)),
    ensures
        named(members, "jsonrpc"@) == FieldView::Value(encode_utf8(quoted("2.0"@))),
        named(members, "id"@) == (match id {
            Some(id) => FieldView::Value(encode_utf8(quoted(id))),
            None => FieldView::Missing,
        }),
        named(members, "method"@) == FieldView::Value(encode_utf8(quoted(method))),
        named(members, "params"@) == (match params {
            Some(value) => FieldView::Value(value),
            None => FieldView::Missing,
        }),
{
    let pairs = message_pairs(id, method, params);
    lemma_names();
    assert forall|i: int| 0 <= i < pairs.len() implies #[trigger] members[i] == pairs[i].member() by {
    }
    let m: int = if id is Some {
        2
    } else {
        1
    };
    assert(pairs[0].name == "jsonrpc"@);
    assert(pairs[m] == pair("method"@, encode_utf8(quoted(method))));
    lemma_named_once(members, 0, "jsonrpc"@);
    lemma_named_once(members, m, "method"@);
    if id is Some {
        assert(pairs[1].name == "id"@);
        lemma_named_once(members, 1, "id"@);
    } else {
        lemma_named_missing(members, "id"@);
    }
    if params is Some {
        assert(pairs[m + 1].name == "params"@);
        lemma_named_once(members, m + 1, "params"@);
    } else {
        lemma_named_missing(members, "params"@);
    }
}

/// A message is read back from its members.
proof fn lemma_members_read_back(id: Option<Seq<char>>, method: Seq<char>, params: RpcParams)
    requires
        params matches Some(json) ==> json.holds_value(),
    ensures
        request_decoded(object_bytes(message_pairs(id, method, params_bytes(params)))) == Some(
            told(id, method, params_bytes(params)),
        ),
{
    let pairs = message_pairs(id, method, params_bytes(params));
    let members = members_of(pairs);
    lemma_message_pairs_wf(id, method, params);
    object_is_value(pairs);
    lemma_fields_found(members, id, method, params_bytes(params));
    lemma_names();
    literal_is_read_back("2.0"@);
    literal_is_read_back(method);
    if let Some(id) = id {
        literal_is_read_back(id);
    }
    if let Some(json) = params {
        encode_utf8_valid_utf8(json@);
        encode_utf8_decode_utf8(json@);
    }
    assert(request_parts(PartsView::Members(members)) == Some(
        told(id, method, params_bytes(params)),
    ));
}

/// A character that is no letter of a name, as a byte.
proof fn lemma_mark(c: char)
    requires
        c <= '\u{7f}',
    ensures
        encode_utf8(seq![c]) == seq![c as u8],
{
    is_ascii_chars_encode_utf8(seq![c]);
    assert(seq![c][0] == c);
    assert(encode_utf8(seq![c]) =~= seq![c as u8]);
}

/// A text and the mark behind it.
proof fn lemma_then_mark(text: Seq<char>, c: char)
    requires
        c <= '\u{7f}',
    ensures
        encode_utf8(text.push(c)) == encode_utf8(text).push(c as u8),
{
    lemma_mark(c);
    lemma_encode_concat(text, seq![c]);
    assert(text + seq![c] =~= text.push(c));
    assert(encode_utf8(text) + seq![c as u8] =~= encode_utf8(text).push(c as u8));
}

/// The marks of JSON, as bytes.
proof fn lemma_marks()
    ensures
        encode_utf8("}"@) == seq![CLOSE_OBJECT],
        encode_utf8("\","@) == seq![QUOTE, COMMA],
{
    reveal_strlit("}");
    reveal_strlit("\",");
    lemma_mark('}');
    lemma_mark('"');
    lemma_then_mark(seq!['"'], ',');
    assert("}"@ =~= seq!['}']);
    assert("\","@ =~= seq!['"'].push(','));
}

/// A member, up to its value.
proof fn lemma_name_then_colon(name: Seq<char>)
    ensures
        encode_utf8(quoted(name).push(':')) == encode_utf8(quoted(name)) + seq![COLON],
{
    lemma_then_mark(quoted(name), ':');
}

/// What the messages of the client start with.
proof fn lemma_start()
    ensures
        encode_utf8("{\"jsonrpc\":\"2.0\","@) == seq![OPEN_OBJECT] + pair(
            "jsonrpc"@,
            encode_utf8(quoted("2.0"@)),
        ).bytes() + seq![COMMA],
{
    let start = "{\"jsonrpc\":\"2.0\","@;
    let name = quoted("jsonrpc"@);
    let value = quoted("2.0"@);
    lemma_names();
    lemma_escaped("jsonrpc"@);
    lemma_escaped("2.0"@);
    reveal_strlit("jsonrpc");
    reveal_strlit("2.0");
    reveal_strlit("{\"jsonrpc\":\"2.0\",");
    lemma_mark('{');
    lemma_name_then_colon("jsonrpc"@);
    lemma_then_mark(value, ',');
    lemma_encode_concat(seq!['{'], name.push(':'));
    lemma_encode_concat(seq!['{'] + name.push(':'), value.push(','));
    assert(start =~= seq!['{'] + name.push(':') + value.push(','));
    assert(encode_utf8(start) =~= seq![OPEN_OBJECT] + pair("jsonrpc"@, encode_utf8(value)).bytes()
        + seq![COMMA]);
}

/// A member whose value is a literal, up to the text of that literal.
proof fn lemma_named_literal(name: Seq<char>, start: Seq<char>)
    requires
        start == quoted(name).push(':').push('"'),
    ensures
        encode_utf8(start) == encode_utf8(quoted(name)) + seq![COLON] + seq![QUOTE],
{
    lemma_name_then_colon(name);
    lemma_then_mark(quoted(name).push(':'), '"');
    assert(encode_utf8(start) =~= encode_utf8(quoted(name)) + seq![COLON] + seq![QUOTE]);
}

/// The end of a message consists of its method and its parameters.
proof fn lemma_call_bytes(method: Seq<char>, params: Option<Seq<u8>>)
    ensures
        call_bytes(method, params) == (match params {
            Some(value) => pair("method"@, encode_utf8(quoted(method))).bytes() + seq![COMMA]
                + pair("params"@, value).bytes() + seq![CLOSE_OBJECT],
            None => pair("method"@, encode_utf8(quoted(method))).bytes() + seq![CLOSE_OBJECT],
        }),
{
    lemma_names();
    lemma_marks();
    lemma_escaped("method"@);
    lemma_escaped("params"@);
    reveal_strlit("method");
    reveal_strlit("params");
    reveal_strlit("\"method\":");
    reveal_strlit(",\"params\":");
    assert("\"method\":"@ =~= quoted("method"@).push(':'));
    lemma_name_then_colon("method"@);
    let named = quoted("params"@).push(':');
    lemma_name_then_colon("params"@);
    lemma_mark(',');
    lemma_encode_concat(seq![','], named);
    assert(",\"params\":"@ =~= seq![','] + named);
    match params {
        Some(value) => {
            assert(call_bytes(method, params) =~= pair("method"@, encode_utf8(quoted(method))).bytes()
                + seq![COMMA] + pair("params"@, value).bytes() + seq![CLOSE_OBJECT]);
        },
        None => {
            assert(call_bytes(method, params) =~= pair("method"@, encode_utf8(quoted(method))).bytes()
                + seq![CLOSE_OBJECT]);
        },
    }
}

/// The members of the end of a message, between their commas.
proof fn lemma_call_body(method: Seq<char>, params: Option<Seq<u8>>)
    ensures
        call_bytes(method, params) == object_body(call_pairs(method, params)) + seq![CLOSE_OBJECT],
{
    let pairs = call_pairs(method, params);
    lemma_call_bytes(method, params);
    reveal_with_fuel(object_body, 2);
    match params {
        Some(value) => {
            assert(pairs.drop_first() =~= seq![pair("params"@, value)]);
            assert(call_bytes(method, params) =~= object_body(pairs) + seq![CLOSE_OBJECT]);
        },
        None => {},
    }
}

/// The bytes of a notification are those of an object with its members.
proof fn lemma_notification_bytes(method: Seq<char>, params: Option<Seq<u8>>)
    ensures
        notification_bytes(method, params) == object_bytes(message_pairs(None, method, params)),
{
    let pairs = message_pairs(None, method, params);
    lemma_start();
    lemma_call_body(method, params);
    assert(pairs.drop_first() =~= call_pairs(method, params));
    assert(notification_bytes(method, params) =~= object_bytes(pairs));
}

/// An ID needs no escapes.
proof fn lemma_id_escaped(number: nat)
    ensures
        escaped(decimal(number)) == decimal(number),
{
    let id = decimal(number);
    lemma_decimal_digits(number);
    assert forall|i: int| 0 <= i < id.len() implies #[trigger] id[i] >= '\u{20}' && id[i] != '"'
        && id[i] != '\\' by {
        assert('0' <= id[i] <= '9');
    }
    lemma_escaped(id);
}

/// The bytes of a request are those of an object with its members.
proof fn lemma_request_bytes(id: Seq<char>, method: Seq<char>, params: Option<Seq<u8>>)
    requires
        escaped(id) == id,
    ensures
        request_bytes(id, method, params) == object_bytes(message_pairs(Some(id), method, params)),
{
    let pairs = message_pairs(Some(id), method, params);
    let start = "{\"jsonrpc\":\"2.0\","@;
    let named = quoted("id"@).push(':').push('"');
    lemma_start();
    lemma_marks();
    lemma_names();
    lemma_call_body(method, params);
    literal_is_read_back(id);
    lemma_escaped("id"@);
    reveal_strlit("id");
    reveal_strlit("{\"jsonrpc\":\"2.0\",");
    reveal_strlit("{\"jsonrpc\":\"2.0\",\"id\":\"");
    assert("{\"jsonrpc\":\"2.0\",\"id\":\""@ =~= start + named);
    lemma_encode_concat(start, named);
    lemma_named_literal("id"@, named);
    let others = pairs.drop_first();
    assert(others =~= seq![pair("id"@, encode_utf8(quoted(id)))] + call_pairs(method, params));
    assert(others.drop_first() =~= call_pairs(method, params));
    assert(object_body(others) == others[0].bytes() + seq![COMMA] + object_body(
        call_pairs(method, params),
    ));
    assert(object_body(pairs) == pairs[0].bytes() + seq![COMMA] + object_body(others));
    assert(request_bytes(id, method, params) =~= object_bytes(pairs));
}

/// What a server reads from a request is its ID, its method and its parameters. It refuses the
/// request only if nothing handles the method.
pub proof fn request_is_read_back(number: nat, method: Seq<char>, params: RpcParams)
    requires
        params matches Some(json) ==> json.holds_value(),
    ensures
        request_decoded(request_bytes(decimal(number), method, params_bytes(params))) == Some(
            told(Some(decimal(number)), method, params_bytes(params)),
        ),
        refusal(told(Some(decimal(number)), method, params_bytes(params)), true) is None,
{
    let id = decimal(number);
    lemma_id_escaped(number);
    lemma_request_bytes(id, method, params_bytes(params));
    lemma_members_read_back(Some(id), method, params);
}

/// What a server reads from a notification is its method and its parameters, and no ID. It refuses
/// it only if nothing handles the method.
pub proof fn notification_is_read_back(method: Seq<char>, params: RpcParams)
    requires
        params matches Some(json) ==> json.holds_value(),
    ensures
        request_decoded(notification_bytes(method, params_bytes(params))) == Some(
            told(None, method, params_bytes(params)),
        ),
        refusal(told(None, method, params_bytes(params)), true) is None,
{
    lemma_notification_bytes(method, params_bytes(params));
    lemma_members_read_back(None, method, params);
}

/// Whether these are the members of a message, in their order: the version, the ID if it has one,
/// the method, and the parameters if it has some.
pub open spec fn are_members_of(
    members: Seq<MemberView>,
    id: Option<Seq<char>>,
    method: Seq<char>,
    params: Option<Seq<u8>>,
) -> bool {
    let m: int = if id is Some {
        2
    } else {
        1
    };
    &&& members.len() == m + (if params is Some {
        2int
    } else {
        1int
    })
    &&& members[0].name == "jsonrpc"@
    &&& string_value(members[0].value) == Some("2.0"@)
    &&& id is Some ==> members[1].name == "id"@ && string_value(members[1].value) == id
    &&& members[m].name == "method"@
    &&& string_value(members[m].value) == Some(method)
    &&& params is Some ==> members[m + 1].name == "params"@ && Some(members[m + 1].value) == params
}

/// A request is an object whose members are its version, its ID, its method and its parameters.
pub proof fn request_is_laid_out(number: nat, method: Seq<char>, params: RpcParams)
    requires
        params matches Some(json) ==> json.holds_value(),
    ensures
        document(request_bytes(decimal(number), method, params_bytes(params))) matches Some(
            PartsView::Members(members),
        ) && are_members_of(members, Some(decimal(number)), method, params_bytes(params)),
{
    let id = decimal(number);
    lemma_id_escaped(number);
    lemma_request_bytes(id, method, params_bytes(params));
    lemma_laid_out(Some(id), method, params);
}

/// A notification is an object whose members are its version, its method and its parameters.
pub proof fn notification_is_laid_out(method: Seq<char>, params: RpcParams)
    requires
        params matches Some(json) ==> json.holds_value(),
    ensures
        document(notification_bytes(method, params_bytes(params))) matches Some(
            PartsView::Members(members),
        ) && are_members_of(members, None, method, params_bytes(params)),
{
    lemma_notification_bytes(method, params_bytes(params));
    lemma_laid_out(None, method, params);
}

proof fn lemma_laid_out(id: Option<Seq<char>>, method: Seq<char>, params: RpcParams)
    requires
        params matches Some(json) ==> json.holds_value(),
    ensures
        document(object_bytes(message_pairs(id, method, params_bytes(params)))) matches Some(
            PartsView::Members(members),
        ) && are_members_of(members, id, method, params_bytes(params)),
{
    let pairs = message_pairs(id, method, params_bytes(params));
    let members = members_of(pairs);
    lemma_message_pairs_wf(id, method, params);
    object_is_value(pairs);
    literal_is_read_back("2.0"@);
    literal_is_read_back(method);
    if let Some(id) = id {
        literal_is_read_back(id);
    }
    assert forall|i: int| 0 <= i < pairs.len() implies #[trigger] members[i] == pairs[i].member() by {
    }
}

/// Where a server answers a request under the ID that it has read, what the stream of the request
/// gets is that answer.
pub proof fn answer_reaches_its_request<W, F: Fn(&RawResponse<'_>) -> bool>(
    number: nat,
    method: Seq<char>,
    params: RpcParams,
    answer: ResponseView,
    before: InnerView<W, F>,
    message: ResponseStreamItem,
    after: InnerView<W, F>,
    wakers: Seq<W>,
    i: int,
    id: String,
)
    requires
        params matches Some(json) ==> json.holds_value(),
        request_decoded(request_bytes(decimal(number), method, params_bytes(params))) matches Some(
            request,
        ) ==> answer.id() == request.id,
        decodes_back(answer),
        decoded(response_bytes(answer)) == Some(message@),
        before.wf(),
        before.may_broadcast(message, after, wakers),
        0 <= i < before.instances.len(),
        before.instances[i].filter == Filter::<F>::Reply(id),
        id@ == decimal(number),
    ensures
        message@ == answer,
        got(before, after, message, i),
{
    request_is_read_back(number, method, params);
    reply_reaches_its_request(before, message, after, wakers, i, id);
}

} // verus!
