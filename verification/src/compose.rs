//! JSON objects and arrays that are put together from values, and what reading them gives.
use crate::json::{
    closes_value, is_value, literal, number_len, quoted, skip_space, string_value, value_len,
    word_len, write_string, RawJson, QUOTE,
};
use crate::layout::{
    document, elements_from, layout, member_at, members_from, value_end, MemberView, PartsView,
    CLOSE_ARRAY, CLOSE_OBJECT, COLON, COMMA, OPEN_ARRAY, OPEN_OBJECT,
};
use crate::literal::literal_is_read_back;
use vstd::prelude::*;
use vstd::slice::slice_to_vec;
use vstd::utf8::{
    encode_utf8, encode_utf8_valid_utf8, is_ascii_chars_encode_utf8, valid_utf8, valid_utf8_concat,
};

verus! {

/// A member to be written: the literal of its name, the name, and the bytes of its value.
pub struct PairView {
    pub key: Seq<u8>,
    pub name: Seq<char>,
    pub value: Seq<u8>,
}

impl PairView {
    /// The literal stands for the name, and literal and value are JSON values.
    pub open spec fn wf(self) -> bool {
        &&& is_value(self.key)
        &&& self.key[0] == QUOTE
        &&& string_value(self.key) == Some(self.name)
        &&& is_value(self.value)
    }

    /// How the member is written.
    pub open spec fn bytes(self) -> Seq<u8> {
        self.key + seq![COLON] + self.value
    }

    /// The member as it is read.
    pub open spec fn member(self) -> MemberView {
        MemberView { name: self.name, value: self.value }
    }
}

/// The members as they are read.
pub open spec fn members_of(pairs: Seq<PairView>) -> Seq<MemberView> {
    pairs.map_values(|p: PairView| p.member())
}

/// Members, separated by commas.
pub open spec fn object_body(pairs: Seq<PairView>) -> Seq<u8>
    decreases pairs.len(),
{
    if pairs.len() == 0 {
        seq![]
    } else if pairs.len() == 1 {
        pairs[0].bytes()
    } else {
        pairs[0].bytes() + seq![COMMA] + object_body(pairs.drop_first())
    }
}

/// An object with these members.
pub open spec fn object_bytes(pairs: Seq<PairView>) -> Seq<u8> {
    seq![OPEN_OBJECT] + object_body(pairs) + seq![CLOSE_OBJECT]
}

/// Values, separated by commas.
pub open spec fn array_body(values: Seq<Seq<u8>>) -> Seq<u8>
    decreases values.len(),
{
    if values.len() == 0 {
        seq![]
    } else if values.len() == 1 {
        values[0]
    } else {
        values[0] + seq![COMMA] + array_body(values.drop_first())
    }
}

/// An array with these elements.
pub open spec fn array_bytes(values: Seq<Seq<u8>>) -> Seq<u8> {
    seq![OPEN_ARRAY] + array_body(values) + seq![CLOSE_ARRAY]
}

pub open spec fn all_wf(pairs: Seq<PairView>) -> bool {
    forall|j: int| 0 <= j < pairs.len() ==> (#[trigger] pairs[j]).wf()
}

pub open spec fn all_values(values: Seq<Seq<u8>>) -> bool {
    forall|j: int| 0 <= j < values.len() ==> is_value(#[trigger] values[j])
}

/// One more member is written behind a comma.
pub proof fn lemma_object_body_push(pairs: Seq<PairView>, p: PairView)
    ensures
        object_body(pairs.push(p)) == (if pairs.len() == 0 {
            p.bytes()
        } else {
            object_body(pairs) + seq![COMMA] + p.bytes()
        }),
    decreases pairs.len(),
{
    let more = pairs.push(p);
    if pairs.len() == 0 {
        assert(more[0] == p);
    } else if pairs.len() == 1 {
        reveal_with_fuel(object_body, 2);
        assert(more.drop_first() =~= seq![p]);
        assert(object_body(seq![p]) == p.bytes());
    } else {
        assert(more.drop_first() =~= pairs.drop_first().push(p));
        lemma_object_body_push(pairs.drop_first(), p);
        assert(object_body(more) =~= object_body(pairs) + seq![COMMA] + p.bytes());
    }
}

/// One more element is written behind a comma.
pub proof fn lemma_array_body_push(values: Seq<Seq<u8>>, v: Seq<u8>)
    ensures
        array_body(values.push(v)) == (if values.len() == 0 {
            v
        } else {
            array_body(values) + seq![COMMA] + v
        }),
    decreases values.len(),
{
    let more = values.push(v);
    if values.len() == 0 {
        assert(more[0] == v);
    } else if values.len() == 1 {
        reveal_with_fuel(array_body, 2);
        assert(more.drop_first() =~= seq![v]);
        assert(array_body(seq![v]) == v);
    } else {
        assert(more.drop_first() =~= values.drop_first().push(v));
        lemma_array_body_push(values.drop_first(), v);
        assert(array_body(more) =~= array_body(values) + seq![COMMA] + v);
    }
}

proof fn lemma_value_end(s: Seq<u8>, i: int, value: Seq<u8>, rest: Seq<u8>)
    requires
        0 < i < s.len(),
        s.skip(i) == value + rest,
        is_value(value),
        closes_value(rest),
    ensures
        value_end(s, i) == Some(i + value.len()),
        s.subrange(i, i + value.len()) == value,
        skip_space(s, i) == i,
        skip_space(s, i + value.len()) == i + value.len(),
        s.skip(i + value.len() as int) == rest,
{
    assert(s.skip(i).len() == value.len() + rest.len());
    assert(value_len(value + rest) == Some(value.len()));
    assert(s.subrange(i, i + value.len()) =~= s.skip(i).take(value.len() as int));
    assert(s.skip(i).take(value.len() as int) =~= value);
    assert(s.skip(i)[0] == s[i]);
    assert(s.skip(i + value.len() as int) =~= s.skip(i).skip(value.len() as int));
    assert(s.skip(i).skip(value.len() as int) =~= rest);
    if rest.len() > 0 {
        assert(s.skip(i + value.len() as int)[0] == s[i + value.len()]);
    }
}

/// Where the name and the value of a member stand.
proof fn lemma_pair_ends(s: Seq<u8>, i: int, p: PairView, rest: Seq<u8>)
    requires
        0 < i < s.len(),
        p.wf(),
        s.skip(i) == p.bytes() + rest,
        closes_value(rest),
    ensures
        ({
            let k = i + p.key.len();
            let e = i + p.bytes().len();
            &&& s[i] == QUOTE
            &&& value_end(s, i) == Some(k)
            &&& s.subrange(i, k) == p.key
            &&& skip_space(s, k) == k
            &&& k + 1 < s.len()
            &&& s[k] == COLON
            &&& skip_space(s, k + 1) == k + 1
            &&& value_end(s, k + 1) == Some(e)
            &&& s.subrange(k + 1, e) == p.value
            &&& skip_space(s, e) == e
            &&& s.skip(e) == rest
        }),
{
    let tail = seq![COLON] + p.value + rest;
    assert(s.skip(i) =~= p.key + tail);
    lemma_value_end(s, i, p.key, tail);
    let k = i + p.key.len();
    assert(s.skip(k)[0] == s[k]);
    assert(s.skip(k + 1) =~= s.skip(k).skip(1));
    assert(s.skip(k).skip(1) =~= p.value + rest);
    lemma_value_end(s, k + 1, p.value, rest);
    assert(s.skip(i)[0] == s[i]);
}

proof fn lemma_member_at_pair(s: Seq<u8>, i: int, p: PairView, rest: Seq<u8>)
    requires
        0 < i < s.len(),
        p.wf(),
        s.skip(i) == p.bytes() + rest,
        closes_value(rest),
    ensures
        member_at(s, i) == Some((p.member(), i + p.bytes().len())),
        s.skip(i + p.bytes().len() as int) == rest,
{
    lemma_pair_ends(s, i, p, rest);
}

proof fn lemma_members_from(s: Seq<u8>, i: int, pairs: Seq<PairView>, rest: Seq<u8>)
    requires
        0 < i < s.len(),
        pairs.len() > 0,
        all_wf(pairs),
        s.skip(i) == object_body(pairs) + seq![CLOSE_OBJECT] + rest,
    ensures
        members_from(s, i) == Some((members_of(pairs), i + object_body(pairs).len() + 1)),
    decreases pairs.len(),
{
    let p = pairs[0];
    let mark = i + p.bytes().len();
    if pairs.len() == 1 {
        let tail = seq![CLOSE_OBJECT] + rest;
        assert(s.skip(i) =~= p.bytes() + tail);
        lemma_member_at_pair(s, i, p, tail);
        assert(s.skip(mark)[0] == s[mark]);
        assert(members_of(pairs) =~= seq![p.member()]);
    } else {
        let others = pairs.drop_first();
        let tail = seq![COMMA] + object_body(others) + seq![CLOSE_OBJECT] + rest;
        assert(s.skip(i) =~= p.bytes() + tail);
        lemma_member_at_pair(s, i, p, tail);
        assert(s.skip(mark)[0] == s[mark]);
        assert(s.skip(mark + 1) =~= s.skip(mark).skip(1));
        assert(s.skip(mark).skip(1) =~= object_body(others) + seq![CLOSE_OBJECT] + rest);
        assert forall|j: int| 0 <= j < others.len() implies (#[trigger] others[j]).wf() by {
            assert(others[j] == pairs[j + 1]);
        }
        assert(others[0].wf());
        assert(object_body(others)[0] == others[0].key[0]);
        assert(s.skip(mark + 1)[0] == s[mark + 1]);
        lemma_members_from(s, mark + 1, others, rest);
        assert(members_of(pairs) =~= seq![p.member()] + members_of(others));
    }
}

proof fn lemma_elements_from(s: Seq<u8>, i: int, values: Seq<Seq<u8>>, rest: Seq<u8>)
    requires
        0 < i < s.len(),
        values.len() > 0,
        all_values(values),
        s.skip(i) == array_body(values) + seq![CLOSE_ARRAY] + rest,
    ensures
        elements_from(s, i) == Some((values, i + array_body(values).len() + 1)),
    decreases values.len(),
{
    let v = values[0];
    let mark = i + v.len();
    if values.len() == 1 {
        let tail = seq![CLOSE_ARRAY] + rest;
        assert(s.skip(i) =~= v + tail);
        lemma_value_end(s, i, v, tail);
        assert(s.skip(mark)[0] == s[mark]);
        assert(values =~= seq![v]);
    } else {
        let others = values.drop_first();
        let tail = seq![COMMA] + array_body(others) + seq![CLOSE_ARRAY] + rest;
        assert(s.skip(i) =~= v + tail);
        lemma_value_end(s, i, v, tail);
        assert(s.skip(mark)[0] == s[mark]);
        assert(s.skip(mark + 1) =~= s.skip(mark).skip(1));
        assert(s.skip(mark).skip(1) =~= array_body(others) + seq![CLOSE_ARRAY] + rest);
        assert forall|j: int| 0 <= j < others.len() implies is_value(#[trigger] others[j]) by {
            assert(others[j] == values[j + 1]);
        }
        assert(is_value(others[0]));
        assert(array_body(others)[0] == others[0][0]);
        assert(s.skip(mark + 1)[0] == s[mark + 1]);
        lemma_elements_from(s, mark + 1, others, rest);
        assert(values =~= seq![v] + others);
    }
}

/// Reading an object gives back the members that it was put together from, whatever follows.
pub proof fn object_is_read_back(pairs: Seq<PairView>, rest: Seq<u8>)
    requires
        pairs.len() > 0,
        all_wf(pairs),
    ensures
        layout(object_bytes(pairs) + rest) == Some(
            (PartsView::Members(members_of(pairs)), object_bytes(pairs).len() as int),
        ),
{
    let s = object_bytes(pairs) + rest;
    assert(s.skip(1) =~= object_body(pairs) + seq![CLOSE_OBJECT] + rest);
    assert(pairs[0].wf());
    assert(object_body(pairs)[0] == pairs[0].key[0]);
    assert(s.skip(1)[0] == s[1]);
    lemma_members_from(s, 1, pairs, rest);
}

/// Reading an array gives back the values that it was put together from, whatever follows.
pub proof fn array_is_read_back(values: Seq<Seq<u8>>, rest: Seq<u8>)
    requires
        values.len() > 0,
        all_values(values),
    ensures
        layout(array_bytes(values) + rest) == Some(
            (PartsView::Elements(values), array_bytes(values).len() as int),
        ),
{
    let s = array_bytes(values) + rest;
    assert(s.skip(1) =~= array_body(values) + seq![CLOSE_ARRAY] + rest);
    assert(is_value(values[0]));
    assert(array_body(values)[0] == values[0][0]);
    assert(s.skip(1)[0] == s[1]);
    lemma_elements_from(s, 1, values, rest);
}

/// An object or array is as long as its parts say.
proof fn lemma_layout_len(s: Seq<u8>)
    requires
        s.len() > 0,
        s[0] == OPEN_OBJECT || s[0] == OPEN_ARRAY,
        layout(s) is Some,
    ensures
        layout(s) matches Some((_, end)) ==> value_len(s) == Some(end as nat),
{
    reveal(word_len);
    reveal(number_len);
    assert(literal(s) is None);
    assert(word_len(s) is None);
    assert(number_len(s) is None);
}

/// An object that is put together from values is a value.
pub proof fn object_is_value(pairs: Seq<PairView>)
    requires
        pairs.len() > 0,
        all_wf(pairs),
    ensures
        is_value(object_bytes(pairs)),
        document(object_bytes(pairs)) == Some(PartsView::Members(members_of(pairs))),
{
    reveal(document);
    let s = object_bytes(pairs);
    assert forall|rest: Seq<u8>| closes_value(rest) implies #[trigger] value_len(s + rest) == Some(
        s.len(),
    ) by {
        object_is_read_back(pairs, rest);
        assert((s + rest)[0] == OPEN_OBJECT);
        lemma_layout_len(s + rest);
    }
    object_is_read_back(pairs, seq![]);
    assert(s + seq![] =~= s);
    assert(s.skip(0) =~= s);
}

/// An array that is put together from values is a value.
pub proof fn array_is_value(values: Seq<Seq<u8>>)
    requires
        values.len() > 0,
        all_values(values),
    ensures
        is_value(array_bytes(values)),
        document(array_bytes(values)) == Some(PartsView::Elements(values)),
{
    reveal(document);
    let s = array_bytes(values);
    assert forall|rest: Seq<u8>| closes_value(rest) implies #[trigger] value_len(s + rest) == Some(
        s.len(),
    ) by {
        array_is_read_back(values, rest);
        assert((s + rest)[0] == OPEN_ARRAY);
        lemma_layout_len(s + rest);
    }
    array_is_read_back(values, seq![]);
    assert(s + seq![] =~= s);
    assert(s.skip(0) =~= s);
}

/// The member with this name and value.
pub open spec fn pair(name: Seq<char>, value: Seq<u8>) -> PairView {
    PairView { key: encode_utf8(quoted(name)), name, value }
}

proof fn lemma_ascii_utf8(b: u8)
    requires
        b < 0x80,
    ensures
        valid_utf8(seq![b]),
{
    let text = seq![b as char];
    is_ascii_chars_encode_utf8(text);
    encode_utf8_valid_utf8(text);
    assert(encode_utf8(text) =~= seq![b]);
}

/// Members whose literals and values are UTF-8 make up UTF-8.
proof fn lemma_object_body_utf8(pairs: Seq<PairView>)
    requires
        forall|j: int|
            0 <= j < pairs.len() ==> valid_utf8((#[trigger] pairs[j]).key) && valid_utf8(
                pairs[j].value,
            ),
    ensures
        valid_utf8(object_body(pairs)),
    decreases pairs.len(),
{
    if pairs.len() > 0 {
        let p = pairs[0];
        lemma_ascii_utf8(COLON);
        lemma_ascii_utf8(COMMA);
        valid_utf8_concat(p.key, seq![COLON]);
        valid_utf8_concat(p.key + seq![COLON], p.value);
        if pairs.len() > 1 {
            let others = pairs.drop_first();
            assert forall|j: int| 0 <= j < others.len() implies valid_utf8(
                (#[trigger] others[j]).key,
            ) && valid_utf8(others[j].value) by {
                assert(others[j] == pairs[j + 1]);
            }
            lemma_object_body_utf8(others);
            valid_utf8_concat(p.bytes(), seq![COMMA]);
            valid_utf8_concat(p.bytes() + seq![COMMA], object_body(others));
        }
    }
}

/// Writes a JSON object, one member after the other.
pub(crate) struct ObjectWriter {
    bytes: Vec<u8>,
    pairs: Ghost<Seq<PairView>>,
}

impl ObjectWriter {
    #[verifier::type_invariant]
    spec fn inv(self) -> bool {
        &&& all_wf(self.pairs@)
        &&& forall|j: int|
            0 <= j < self.pairs@.len() ==> valid_utf8((#[trigger] self.pairs@[j]).key)
                && valid_utf8(self.pairs@[j].value)
        &&& self.bytes@ == (if self.pairs@.len() == 0 {
            seq![]
        } else {
            seq![OPEN_OBJECT] + object_body(self.pairs@)
        })
    }

    /// The members that were written.
    pub(crate) closed spec fn pairs(self) -> Seq<PairView> {
        self.pairs@
    }

    pub(crate) fn new() -> (writer: ObjectWriter)
        ensures
            writer.pairs() == Seq::<PairView>::empty(),
    {
        ObjectWriter { bytes: Vec::new(), pairs: Ghost(Seq::empty()) }
    }

    /// Writes one more member.
    pub(crate) fn member(self, name: &str, value: &RawJson) -> (writer: ObjectWriter)
        ensures
            writer.pairs() == self.pairs().push(pair(name@, encode_utf8(value@))),
    {
        proof {
            use_type_invariant(&self);
            use_type_invariant(value);
        }
        let ghost before = self.pairs@;
        let ObjectWriter { bytes, pairs: _ } = self;
        let mut bytes = bytes;
        if bytes.len() == 0 {
            bytes.push(OPEN_OBJECT);
        } else {
            bytes.push(COMMA);
        }
        match write_string(name) {
            Ok(key) => {
                let ghost p = pair(name@, encode_utf8(value@));
                let mut key_bytes = slice_to_vec(key.as_str().as_bytes());
                bytes.append(&mut key_bytes);
                bytes.push(COLON);
                let mut value_bytes = slice_to_vec(value.get().as_bytes());
                bytes.append(&mut value_bytes);
                proof {
                    literal_is_read_back(name@);
                    encode_utf8_valid_utf8(quoted(name@));
                    encode_utf8_valid_utf8(value@);
                    lemma_object_body_push(before, p);
                    assert(bytes@ =~= seq![OPEN_OBJECT] + object_body(before.push(p)));
                }
                ObjectWriter { bytes, pairs: Ghost(before.push(p)) }
            },
            Err(_) => vstd::pervasive::unreached(),
        }
    }

    /// The object with the members that were written, if there are any.
    pub(crate) fn finish(self) -> (object: Option<RawJson>)
        ensures
            match object {
                Some(json) => self.pairs().len() > 0 && encode_utf8(json@) == object_bytes(
                    self.pairs(),
                ),
                None => self.pairs().len() == 0,
            },
            all_wf(self.pairs()),
    {
        proof {
            use_type_invariant(&self);
        }
        let ghost pairs = self.pairs@;
        let ObjectWriter { bytes, pairs: _ } = self;
        if bytes.len() == 0 {
            return None;
        }
        let mut bytes = bytes;
        bytes.push(CLOSE_OBJECT);
        proof {
            assert(bytes@ =~= object_bytes(pairs));
            object_is_value(pairs);
            lemma_object_body_utf8(pairs);
            lemma_ascii_utf8(OPEN_OBJECT);
            lemma_ascii_utf8(CLOSE_OBJECT);
            valid_utf8_concat(seq![OPEN_OBJECT], object_body(pairs));
            valid_utf8_concat(seq![OPEN_OBJECT] + object_body(pairs), seq![CLOSE_OBJECT]);
            vstd::utf8::decode_utf8_encode_utf8(bytes@);
        }
        match RawJson::from_value(bytes.as_slice()) {
            Some(json) => Some(json),
            None => vstd::pervasive::unreached(),
        }
    }
}

/// A string literal starts with a quotation mark.
pub proof fn lemma_quoted_first(text: Seq<char>)
    ensures
        encode_utf8(quoted(text)).len() > 0,
        encode_utf8(quoted(text))[0] == QUOTE,
{
    literal_is_read_back(text);
}

} // verus!
