//! String literals: how they are written, and what reading them gives.
use crate::json::{
    closes_value, escape, escape_at, escaped, hex_digit, hex_value, is_value, literal_at,
    needs_no_escape, plain_byte, quoted, short_escape, string_value, value_len, BACKSLASH,
    QUOTE,
};
use vstd::prelude::*;
use vstd::utf8::{
    char_is_scalar, encode_scalar, encode_utf8, encode_utf8_decode_utf8, encode_utf8_valid_utf8,
    has_width_1_encoding, is_ascii_chars_encode_utf8, last_continuation_byte, leading_byte_width_1,
    leading_byte_width_2, leading_byte_width_3, leading_byte_width_4, second_last_continuation_byte,
    third_last_continuation_byte,
};

verus! {

/// Texts that are written one behind the other make up the bytes of both.
pub proof fn lemma_encode_concat(a: Seq<char>, b: Seq<char>)
    ensures
        encode_utf8(a + b) == encode_utf8(a) + encode_utf8(b),
    decreases a.len(),
{
    if a.len() == 0 {
        assert(a + b =~= b);
        assert(encode_utf8(a) + encode_utf8(b) =~= encode_utf8(b));
    } else {
        assert((a + b).drop_first() =~= a.drop_first() + b);
        lemma_encode_concat(a.drop_first(), b);
        assert(encode_utf8(a + b) =~= encode_utf8(a) + encode_utf8(b));
    }
}

proof fn lemma_plain_scalar(c: char)
    requires
        c >= '\u{20}',
        c != '"',
        c != '\\',
    ensures
        forall|i: int|
            0 <= i < encode_scalar(c as u32).len() ==> plain_byte(
                #[trigger] encode_scalar(c as u32)[i],
            ),
{
    let v = c as u32;
    char_is_scalar(c);
    if has_width_1_encoding(v) {
        assert(leading_byte_width_1(v) == v) by (bit_vector)
            requires
                has_width_1_encoding(v),
        ;
    } else {
        assert(leading_byte_width_2(v) >= 0x80) by (bit_vector);
        assert(leading_byte_width_3(v) >= 0x80) by (bit_vector);
        assert(leading_byte_width_4(v) >= 0x80) by (bit_vector);
        assert(last_continuation_byte(v) >= 0x80) by (bit_vector);
        assert(second_last_continuation_byte(v) >= 0x80) by (bit_vector);
        assert(third_last_continuation_byte(v) >= 0x80) by (bit_vector);
    }
}

/// Bytes that stand for themselves are passed over one by one.
proof fn lemma_plain_run(s: Seq<u8>, i: int, run: Seq<u8>, content: Seq<u8>, end: int)
    requires
        0 <= i,
        i + run.len() <= s.len(),
        s.subrange(i, i + run.len()) == run,
        forall|k: int| 0 <= k < run.len() ==> plain_byte(#[trigger] run[k]),
        literal_at(s, i + run.len() as int) == Some((content, end)),
    ensures
        literal_at(s, i) == Some((run + content, end)),
    decreases run.len(),
{
    if run.len() == 0 {
        assert(run + content =~= content);
    } else {
        let rest = run.drop_first();
        assert(s.subrange(i, i + run.len())[0] == s[i]);
        assert(plain_byte(run[0]));
        assert(s.subrange(i + 1, i + 1 + rest.len()) =~= rest) by {
            assert forall|k: int| 0 <= k < rest.len() implies s.subrange(i + 1, i + 1 + rest.len())[k]
                == rest[k] by {
                assert(s.subrange(i, i + run.len())[k + 1] == run[k + 1]);
            }
        }
        assert forall|k: int| 0 <= k < rest.len() implies plain_byte(#[trigger] rest[k]) by {
            assert(plain_byte(run[k + 1]));
        }
        lemma_plain_run(s, i + 1, rest, content, end);
        assert(seq![s[i]] + (rest + content) =~= run + content);
    }
}

/// An ASCII character is one byte.
proof fn lemma_ascii_scalar(c: char)
    requires
        c <= '\u{7f}',
    ensures
        encode_scalar(c as u32) == seq![c as u8],
{
    let v = c as u32;
    assert(leading_byte_width_1(v) == v) by (bit_vector)
        requires
            has_width_1_encoding(v),
    ;
    assert(encode_scalar(v) =~= seq![c as u8]);
}

/// The bytes of a character that is escaped.
proof fn lemma_escape_bytes(c: char)
    requires
        '\u{20}' > c || c == '"' || c == '\\',
    ensures
        ({
            let bytes = encode_utf8(escape(c));
            &&& escape_at(bytes, 0) == Some((c as u8, bytes.len() as int))
            &&& bytes[0] == BACKSLASH
        }),
{
    let chars = escape(c);
    let bytes = encode_utf8(chars);
    let n = c as nat;
    assert(n / 16 < 2 || c == '"' || c == '\\');
    is_ascii_chars_encode_utf8(chars);
    assert(chars[0] as u8 == BACKSLASH);
    assert(chars[1] as u8 == bytes[1]);
    assert(bytes[0] == BACKSLASH);
    if chars.len() == 6 {
        assert(chars[1] as u8 == 0x75);
        assert(chars[2] as u8 == 0x30);
        assert(chars[3] as u8 == 0x30);
        lemma_hex(n / 16);
        lemma_hex(n % 16);
        assert(bytes[4] == hex_digit(n / 16) as u8);
        assert(bytes[5] == hex_digit(n % 16) as u8);
        assert(16 * (n / 16) + n % 16 == n);
    }
}

/// A hexadecimal digit has its value.
proof fn lemma_hex(d: nat)
    requires
        d < 16,
    ensures
        hex_digit(d) <= '\u{7f}',
        hex_value(hex_digit(d) as u8) == Some(d),
{
}

/// An escape means the same wherever it stands.
proof fn lemma_escape_at(s: Seq<u8>, i: int, bytes: Seq<u8>)
    requires
        0 <= i,
        i + bytes.len() <= s.len(),
        s.subrange(i, i + bytes.len()) == bytes,
        bytes.len() > 0,
        escape_at(bytes, 0) is Some,
    ensures
        escape_at(s, i) == escape_at(bytes, 0),
{
    assert forall|k: int| 0 <= k < bytes.len() implies #[trigger] s[i + k] == bytes[k] by {
        assert(s.subrange(i, i + bytes.len())[k] == s[i + k]);
    }
    assert(s[i + 0] == bytes[0]);
    assert(s[i + 1] == bytes[1]);
    if short_escape(bytes[1]) is None {
        assert(s[i + 2] == bytes[2]);
        assert(s[i + 3] == bytes[3]);
        assert(s[i + 4] == bytes[4]);
        assert(s[i + 5] == bytes[5]);
    }
}

/// The content of a literal is read back.
proof fn lemma_content(s: Seq<u8>, i: int, text: Seq<char>, rest: Seq<u8>)
    requires
        0 <= i <= s.len(),
        s.skip(i) == encode_utf8(escaped(text)) + seq![QUOTE] + rest,
    ensures
        literal_at(s, i) == Some((encode_utf8(text), i + encode_utf8(escaped(text)).len() + 1)),
    decreases text.len(),
{
    let tail = encode_utf8(escaped(text)) + seq![QUOTE] + rest;
    assert(s.skip(i).len() == tail.len());
    if text.len() == 0 {
        assert(s.skip(i)[0] == s[i]);
        assert(encode_utf8(text) =~= seq![]);
    } else {
        let c = text[0];
        let others = text.drop_first();
        let bytes = encode_utf8(escape(c));
        let behind = encode_utf8(escaped(others));
        lemma_encode_concat(escape(c), escaped(others));
        assert(tail =~= bytes + (behind + seq![QUOTE] + rest));
        let k = i + bytes.len();
        assert(s.skip(k) =~= s.skip(i).skip(bytes.len() as int));
        assert(s.skip(k) =~= behind + seq![QUOTE] + rest);
        lemma_content(s, k, others, rest);
        assert(s.subrange(i, k) =~= s.skip(i).take(bytes.len() as int));
        assert(s.subrange(i, k) =~= bytes);
        let end = k + behind.len() + 1;
        if '\u{20}' > c || c == '"' || c == '\\' {
            lemma_escape_bytes(c);
            lemma_escape_at(s, i, bytes);
            assert(s.subrange(i, k)[0] == s[i]);
            lemma_ascii_scalar(c);
            assert(encode_utf8(text) =~= seq![c as u8] + encode_utf8(others));
        } else {
            assert(escape(c) =~= seq![c]);
            assert(seq![c].drop_first() =~= seq![]);
            assert(encode_utf8(seq![c].drop_first()) =~= seq![]);
            assert(bytes =~= encode_scalar(c as u32));
            lemma_plain_scalar(c);
            lemma_plain_run(s, i, bytes, encode_utf8(others), end);
            assert(encode_utf8(text) =~= bytes + encode_utf8(others));
        }
    }
}

/// A text without escapes is written as it is.
pub proof fn lemma_escaped(text: Seq<char>)
    requires
        needs_no_escape(text),
    ensures
        escaped(text) == text,
        quoted(text) == seq!['"'] + text + seq!['"'],
    decreases text.len(),
{
    if text.len() == 0 {
        assert(text =~= seq![]);
    } else {
        let rest = text.drop_first();
        assert forall|i: int| 0 <= i < rest.len() implies #[trigger] rest[i] >= '\u{20}' && rest[i]
            != '"' && rest[i] != '\\' by {
            assert(rest[i] == text[i + 1]);
        }
        lemma_escaped(rest);
        assert(escaped(text) =~= text);
    }
}

/// The literal of a text is a JSON value, and stands for the text.
pub proof fn literal_is_read_back(text: Seq<char>)
    ensures
        encode_utf8(quoted(text)) == seq![QUOTE] + encode_utf8(escaped(text)) + seq![QUOTE],
        is_value(encode_utf8(quoted(text))),
        string_value(encode_utf8(quoted(text))) == Some(text),
{
    let mark = seq!['"'];
    let content = encode_utf8(escaped(text));
    let s = encode_utf8(quoted(text));
    lemma_encode_concat(mark, escaped(text));
    lemma_encode_concat(mark + escaped(text), mark);
    is_ascii_chars_encode_utf8(mark);
    assert(mark[0] as u8 == QUOTE);
    assert(encode_utf8(mark) =~= seq![QUOTE]);
    assert(s =~= seq![QUOTE] + content + seq![QUOTE]);
    assert forall|rest: Seq<u8>| closes_value(rest) implies #[trigger] value_len(s + rest)
        == Some(s.len()) by {
        let t = s + rest;
        assert(t.skip(1) =~= content + seq![QUOTE] + rest);
        lemma_content(t, 1, text, rest);
    }
    assert(s.skip(1) =~= content + seq![QUOTE] + seq![]);
    lemma_content(s, 1, text, seq![]);
    encode_utf8_valid_utf8(text);
    encode_utf8_decode_utf8(text);
}

/// What the literal of a text stands for.
pub proof fn lemma_literal_value(text: Seq<char>)
    ensures
        string_value(encode_utf8(quoted(text))) == Some(text),
{
    literal_is_read_back(text);
}

} // verus!
