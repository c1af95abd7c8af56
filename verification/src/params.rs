//! Helpers to build parameters for a JSON-RPC request.
use crate::compose::{
    array_body, array_bytes, array_is_value, lemma_array_body_push, lemma_object_body_push,
    members_of, object_body, object_bytes, object_is_value, pair, PairView,
};
use crate::json::{is_value, json_in, quoted, value_len, RawJson};
use crate::layout::{document, PartsView, COMMA, OPEN_ARRAY, OPEN_OBJECT};
use crate::literal::{lemma_encode_concat, literal_is_read_back};
use crate::text::same_text;
use vstd::prelude::*;
use vstd::string::StringExecFns;
use vstd::utf8::{encode_utf8, encode_utf8_decode_utf8, is_ascii_chars_encode_utf8};

verus! {

/// The parameters of a request: a JSON array or object, or nothing.
pub type RpcParams = Option<RawJson>;

/// The bytes of parameters.
pub open spec fn params_bytes(params: RpcParams) -> Option<Seq<u8>> {
    match params {
        Some(json) => Some(encode_utf8(json@)),
        None => None,
    }
}

/// A trait which is implemented for anything which can be turned into
/// valid RPC parameters.
pub trait IntoRpcParams: Sized {
    /// Whether this can be turned into parameters.
    spec fn complete(&self) -> bool;

    /// The bytes of the parameters that this is turned into.
    spec fn rpc_bytes(&self) -> Option<Seq<u8>>;

    /// Return the params. These are expected to be encoded to JSON,
    /// and take the form of either an array or object of parameters.
    /// Can return `None` to avoid allocation when returning no parameters.
    fn into_rpc_params(self) -> (params: RpcParams)
        requires
            self.complete(),
        ensures
            params_bytes(params) == self.rpc_bytes(),
    ;
}

/// Parameters are turned into themselves.
impl IntoRpcParams for RpcParams {
    open spec fn complete(&self) -> bool {
        true
    }

    open spec fn rpc_bytes(&self) -> Option<Seq<u8>> {
        params_bytes(*self)
    }

    fn into_rpc_params(self) -> (params: RpcParams) {
        self
    }
}

/// The text of parameters once one more named parameter has been written behind `text`.
pub open spec fn with_named(text: Seq<char>, name: Seq<char>, written: Seq<char>) -> Seq<char> {
    (if text.len() == 0 {
        seq!['{']
    } else {
        text.push(',')
    }) + quoted(name) + seq![':'] + written
}

/// The text of parameters once one more parameter has been written behind `text`.
pub open spec fn with_unnamed(text: Seq<char>, written: Seq<char>) -> Seq<char> {
    (if text.len() == 0 {
        seq!['[']
    } else {
        text.push(',')
    }) + written
}

/// Whether a text, with its closing mark, makes up parameters: it is empty or JSON.
pub open spec fn can_build(text: Seq<char>, close: char) -> bool {
    text.len() > 0 ==> json_in(text.push(close)) is Ok
}

/// The bytes of the parameters that a text makes up with its closing mark.
pub open spec fn built(text: Seq<char>, close: char) -> Option<Seq<u8>> {
    if text.len() == 0 {
        None
    } else {
        Some(encode_utf8(json_in(text.push(close))->Ok_0))
    }
}

/// Makes up parameters from a text and its closing mark, unless they are no JSON.
fn build_text(text: String, close: &str, Ghost(mark): Ghost<char>) -> (params: Option<RpcParams>)
    requires
        close@ == seq![mark],
    ensures
        match params {
            Some(params) => can_build(text@, mark) && params_bytes(params) == built(text@, mark),
            None => !can_build(text@, mark),
        },
{
    if same_text(text.as_str(), "") {
        proof {
            reveal_strlit("");
        }
        return Some(None);
    }
    proof {
        reveal_strlit("");
        if text@.len() == 0 {
            assert(text@ =~= ""@);
        }
        assert(text@ + close@ =~= text@.push(mark));
    }
    let mut text = text;
    text.append(close);
    match RawJson::from_string(text) {
        Ok(json) => Some(Some(json)),
        Err(_) => None,
    }
}

/// Parameter builder to build valid "object" or "named" parameters.
/// This is the equivalent of a JSON Map object `{ key: value }`.
pub struct ObjectParams {
    text: String,
}

impl View for ObjectParams {
    type V = Seq<char>;

    /// What has been written.
    closed spec fn view(&self) -> Seq<char> {
        self.text@
    }
}

impl ObjectParams {
    /// Construct a new [`ObjectParams`] instance.
    pub fn new() -> (params: Self)
        ensures
            params@ == Seq::<char>::empty(),
    {
        ObjectParams { text: String::new() }
    }

    /// Insert a new named parameter: what has been written of its value, and what came of
    /// serializing it, which is handed back. What was written stays, also where that failed.
    pub fn insert(
        &mut self,
        name: &str,
        written: &str,
        outcome: Result<(), serde_json::Error>,
    ) -> (r: Result<(), serde_json::Error>)
        ensures
            final(self)@ == with_named(old(self)@, name@, written@),
            r == outcome,
    {
        let ghost before = self.text@;
        proof {
            reveal_strlit("");
            reveal_strlit("{");
            reveal_strlit(",");
            reveal_strlit(":");
            if before.len() == 0 {
                assert(before =~= ""@);
            }
        }
        if same_text(self.text.as_str(), "") {
            self.text.append("{");
        } else {
            self.text.append(",");
        }
        self.text.append(RawJson::string(name).get());
        self.text.append(":");
        self.text.append(written);
        assert(self.text@ =~= with_named(before, name@, written@));
        outcome
    }

    /// Build the final output.
    pub fn build(self) -> (params: RpcParams)
        requires
            can_build(self@, '}'),
        ensures
            params_bytes(params) == built(self@, '}'),
    {
        match self.try_build() {
            Some(params) => params,
            None => vstd::pervasive::unreached(),
        }
    }

    /// Build the final output, unless what has been written is no JSON.
    pub fn try_build(self) -> (params: Option<RpcParams>)
        ensures
            match params {
                Some(params) => can_build(self@, '}') && params_bytes(params) == built(self@, '}'),
                None => !can_build(self@, '}'),
            },
    {
        proof {
            reveal_strlit("}");
            assert("}"@ =~= seq!['}']);
        }
        build_text(self.text, "}", Ghost('}'))
    }
}

impl IntoRpcParams for ObjectParams {
    open spec fn complete(&self) -> bool {
        can_build(self@, '}')
    }

    open spec fn rpc_bytes(&self) -> Option<Seq<u8>> {
        built(self@, '}')
    }

    fn into_rpc_params(self) -> (params: RpcParams) {
        self.build()
    }
}

/// Parameter builder to build valid "array" or "unnamed" JSON-RPC parameters.
/// This is the equivalent of a JSON array like `[ value0, value1, .., valueN ]`.
pub struct ArrayParams {
    text: String,
}

impl View for ArrayParams {
    type V = Seq<char>;

    /// What has been written.
    closed spec fn view(&self) -> Seq<char> {
        self.text@
    }
}

impl ArrayParams {
    /// Construct a new [`ArrayParams`] instance.
    pub fn new() -> (params: Self)
        ensures
            params@ == Seq::<char>::empty(),
    {
        ArrayParams { text: String::new() }
    }

    /// Insert a new parameter: what has been written of its value, and what came of serializing
    /// it, which is handed back. What was written stays, also where that failed.
    pub fn insert(&mut self, written: &str, outcome: Result<(), serde_json::Error>) -> (r: Result<
        (),
        serde_json::Error,
    >)
        ensures
            final(self)@ == with_unnamed(old(self)@, written@),
            r == outcome,
    {
        let ghost before = self.text@;
        proof {
            reveal_strlit("");
            reveal_strlit("[");
            reveal_strlit(",");
            if before.len() == 0 {
                assert(before =~= ""@);
            }
        }
        if same_text(self.text.as_str(), "") {
            self.text.append("[");
        } else {
            self.text.append(",");
        }
        self.text.append(written);
        assert(self.text@ =~= with_unnamed(before, written@));
        outcome
    }

    /// Build the final output.
    pub fn build(self) -> (params: RpcParams)
        requires
            can_build(self@, ']'),
        ensures
            params_bytes(params) == built(self@, ']'),
    {
        match self.try_build() {
            Some(params) => params,
            None => vstd::pervasive::unreached(),
        }
    }

    /// Build the final output, unless what has been written is no JSON.
    pub fn try_build(self) -> (params: Option<RpcParams>)
        ensures
            match params {
                Some(params) => can_build(self@, ']') && params_bytes(params) == built(self@, ']'),
                None => !can_build(self@, ']'),
            },
    {
        proof {
            reveal_strlit("]");
            assert("]"@ =~= seq![']']);
        }
        build_text(self.text, "]", Ghost(']'))
    }
}

impl IntoRpcParams for ArrayParams {
    open spec fn complete(&self) -> bool {
        can_build(self@, ']')
    }

    open spec fn rpc_bytes(&self) -> Option<Seq<u8>> {
        built(self@, ']')
    }

    fn into_rpc_params(self) -> (params: RpcParams) {
        self.build()
    }
}

/// What is written once these parameters, given by names and values, have been inserted.
pub open spec fn named_text(params: Seq<(Seq<char>, Seq<char>)>) -> Seq<char>
    decreases params.len(),
{
    if params.len() == 0 {
        seq![]
    } else {
        with_named(named_text(params.drop_last()), params.last().0, params.last().1)
    }
}

/// The members of an object, given by names and values.
pub open spec fn named_pairs(params: Seq<(Seq<char>, Seq<char>)>) -> Seq<PairView> {
    params.map_values(|p: (Seq<char>, Seq<char>)| pair(p.0, encode_utf8(p.1)))
}

/// What is written once these parameters have been inserted.
pub open spec fn unnamed_text(params: Seq<Seq<char>>) -> Seq<char>
    decreases params.len(),
{
    if params.len() == 0 {
        seq![]
    } else {
        with_unnamed(unnamed_text(params.drop_last()), params.last())
    }
}

/// The bytes of values.
pub open spec fn bytes_of(params: Seq<Seq<char>>) -> Seq<Seq<u8>> {
    params.map_values(|p: Seq<char>| encode_utf8(p))
}

proof fn lemma_mark(c: char)
    requires
        c <= '\u{7f}',
    ensures
        encode_utf8(seq![c]) == seq![c as u8],
{
    is_ascii_chars_encode_utf8(seq![c]);
    assert(seq![c][0] == c);
    assert(encode_utf8(seq![c]) =~= seq![c as u8]);
}

proof fn lemma_push(text: Seq<char>, c: char)
    requires
        c <= '\u{7f}',
    ensures
        encode_utf8(text.push(c)) == encode_utf8(text).push(c as u8),
{
    lemma_mark(c);
    lemma_encode_concat(text, seq![c]);
    assert(text + seq![c] =~= text.push(c));
    assert(encode_utf8(text) + seq![c as u8] =~= encode_utf8(text).push(c as u8));
}

proof fn lemma_with_named(text: Seq<char>, name: Seq<char>, written: Seq<char>)
    ensures
        encode_utf8(with_named(text, name, written)) == (if text.len() == 0 {
            seq![OPEN_OBJECT]
        } else {
            encode_utf8(text) + seq![COMMA]
        }) + pair(name, encode_utf8(written)).bytes(),
{
    let start = if text.len() == 0 {
        seq!['{']
    } else {
        text.push(',')
    };
    lemma_mark('{');
    lemma_mark(':');
    lemma_push(text, ',');
    lemma_encode_concat(start, quoted(name));
    lemma_encode_concat(start + quoted(name), seq![':']);
    lemma_encode_concat(start + quoted(name) + seq![':'], written);
    assert(encode_utf8(text).push(COMMA) =~= encode_utf8(text) + seq![COMMA]);
    assert(encode_utf8(with_named(text, name, written)) =~= encode_utf8(start) + pair(
        name,
        encode_utf8(written),
    ).bytes());
}

proof fn lemma_with_unnamed(text: Seq<char>, written: Seq<char>)
    ensures
        encode_utf8(with_unnamed(text, written)) == (if text.len() == 0 {
            seq![OPEN_ARRAY]
        } else {
            encode_utf8(text) + seq![COMMA]
        }) + encode_utf8(written),
{
    let start = if text.len() == 0 {
        seq!['[']
    } else {
        text.push(',')
    };
    lemma_mark('[');
    lemma_push(text, ',');
    lemma_encode_concat(start, written);
    assert(encode_utf8(text).push(COMMA) =~= encode_utf8(text) + seq![COMMA]);
}

proof fn lemma_named_text(params: Seq<(Seq<char>, Seq<char>)>)
    ensures
        params.len() > 0 ==> named_text(params).len() > 0,
        params.len() > 0 ==> encode_utf8(named_text(params)) == seq![OPEN_OBJECT] + object_body(
            named_pairs(params),
        ),
    decreases params.len(),
{
    if params.len() > 0 {
        let before = params.drop_last();
        let p = named_pairs(params).last();
        lemma_named_text(before);
        lemma_with_named(named_text(before), params.last().0, params.last().1);
        lemma_object_body_push(named_pairs(before), p);
        assert(named_pairs(before).push(p) =~= named_pairs(params));
        assert(encode_utf8(named_text(params)) =~= seq![OPEN_OBJECT] + object_body(
            named_pairs(params),
        ));
    }
}

proof fn lemma_unnamed_text(params: Seq<Seq<char>>)
    requires
        forall|k: int| 0 <= k < params.len() ==> is_value(encode_utf8(#[trigger] params[k])),
    ensures
        params.len() > 0 ==> unnamed_text(params).len() > 0 && encode_utf8(unnamed_text(params))
            == seq![OPEN_ARRAY] + array_body(bytes_of(params)),
    decreases params.len(),
{
    if params.len() > 0 {
        let before = params.drop_last();
        let v = bytes_of(params).last();
        assert forall|k: int| 0 <= k < before.len() implies is_value(
            encode_utf8(#[trigger] before[k]),
        ) by {
            assert(before[k] == params[k]);
        }
        lemma_unnamed_text(before);
        lemma_with_unnamed(unnamed_text(before), params.last());
        lemma_array_body_push(bytes_of(before), v);
        assert(bytes_of(before).push(v) =~= bytes_of(params));
        assert(encode_utf8(unnamed_text(params)) =~= seq![OPEN_ARRAY] + array_body(
            bytes_of(params),
        ));
    }
}

/// A text that is one JSON value holds itself.
proof fn lemma_json_in(text: Seq<char>)
    requires
        is_value(encode_utf8(text)),
    ensures
        json_in(text) == Ok::<Seq<char>, serde_json::Error>(text),
{
    let s = encode_utf8(text);
    assert(s + seq![] =~= s);
    assert(value_len(s + seq![]) == Some(s.len()));
    assert(s.skip(0) =~= s);
    assert(s.subrange(0, s.len() as int) =~= s);
    encode_utf8_decode_utf8(text);
}

/// Named parameters whose values are JSON can be built, and what is read from the object are these
/// parameters, in their order.
pub proof fn named_parameters_are_read_back(params: Seq<(Seq<char>, Seq<char>)>)
    requires
        params.len() > 0,
        forall|k: int| 0 <= k < params.len() ==> is_value(encode_utf8((#[trigger] params[k]).1)),
    ensures
        can_build(named_text(params), '}'),
        built(named_text(params), '}') == Some(object_bytes(named_pairs(params))),
        document(object_bytes(named_pairs(params))) == Some(
            PartsView::Members(members_of(named_pairs(params))),
        ),
{
    let pairs = named_pairs(params);
    let text = named_text(params);
    lemma_named_text(params);
    lemma_push(text, '}');
    assert(encode_utf8(text.push('}')) =~= object_bytes(pairs));
    assert forall|k: int| 0 <= k < pairs.len() implies (#[trigger] pairs[k]).wf() by {
        assert(is_value(encode_utf8(params[k].1)));
        literal_is_read_back(params[k].0);
    }
    object_is_value(pairs);
    lemma_json_in(text.push('}'));
}

/// Unnamed parameters that are JSON can be built, and what is read from the array are these
/// parameters, in their order.
pub proof fn unnamed_parameters_are_read_back(params: Seq<Seq<char>>)
    requires
        params.len() > 0,
        forall|k: int| 0 <= k < params.len() ==> is_value(encode_utf8(#[trigger] params[k])),
    ensures
        can_build(unnamed_text(params), ']'),
        built(unnamed_text(params), ']') == Some(array_bytes(bytes_of(params))),
        document(array_bytes(bytes_of(params))) == Some(PartsView::Elements(bytes_of(params))),
{
    let values = bytes_of(params);
    let text = unnamed_text(params);
    lemma_unnamed_text(params);
    lemma_push(text, ']');
    assert(encode_utf8(text.push(']')) =~= array_bytes(values));
    assert forall|k: int| 0 <= k < values.len() implies is_value(#[trigger] values[k]) by {
        assert(is_value(encode_utf8(params[k])));
    }
    array_is_value(values);
    lemma_json_in(text.push(']'));
}

} // verus!
