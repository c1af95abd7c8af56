//! JSON values as `serde_json` reads and writes them, and raw JSON texts.
//!
//! This module holds every call into `serde_json`. What such a call returns is stated
//! with its function; the rest of the library is proved from those statements.
use crate::layout::layout;
use crate::literal::literal_is_read_back;
use crate::text::{decimal, lemma_decimal_digits, signed_decimal, signed_decimal_is_injective};
use vstd::prelude::*;
use vstd::utf8::{
    decode_utf8, encode_utf8, encode_utf8_decode_utf8, is_ascii_chars_encode_utf8, valid_utf8,
};

verus! {

/// The error of `serde_json`: an opaque value that is only handed on.
#[verifier::external_type_specification]
#[verifier::external_body]
pub struct ExJsonError(serde_json::Error);

/// The quotation mark `"`.
pub const QUOTE: u8 = 0x22;

/// The backslash.
pub const BACKSLASH: u8 = 0x5c;

/// The bytes that JSON takes for white space.
pub open spec fn is_space(b: u8) -> bool {
    b == 0x20 || b == 0x0a || b == 0x0d || b == 0x09
}

/// The index of the first byte at or after `i` that is no white space, or the length of `s`.
pub open spec fn skip_space(s: Seq<u8>, i: int) -> int
    decreases s.len() - i,
{
    if 0 <= i < s.len() && is_space(s[i]) {
        skip_space(s, i + 1)
    } else {
        i
    }
}

/// Whether a byte stands for itself in a string literal.
pub open spec fn plain_byte(b: u8) -> bool {
    b >= 0x20 && b != QUOTE && b != BACKSLASH
}

/// The byte that a backslash with this byte behind it stands for.
pub open spec fn short_escape(b: u8) -> Option<u8> {
    if b == QUOTE || b == BACKSLASH || b == 0x2f {
        Some(b)
    } else if b == 0x62 {
        Some(0x08)
    } else if b == 0x66 {
        Some(0x0c)
    } else if b == 0x6e {
        Some(0x0a)
    } else if b == 0x72 {
        Some(0x0d)
    } else if b == 0x74 {
        Some(0x09)
    } else {
        None
    }
}

/// The value of a hexadecimal digit.
pub open spec fn hex_value(b: u8) -> Option<nat> {
    if 0x30 <= b <= 0x39 {
        Some((b - 0x30) as nat)
    } else if 0x61 <= b <= 0x66 {
        Some((b - 0x57) as nat)
    } else if 0x41 <= b <= 0x46 {
        Some((b - 0x37) as nat)
    } else {
        None
    }
}

/// The byte that the escape at `i` stands for, and the length of the escape, where it is one for
/// an ASCII character: a short one, or `\u` with the four digits of its code.
pub open spec fn escape_at(s: Seq<u8>, i: int) -> Option<(u8, int)> {
    if 0 <= i && i + 1 < s.len() && s[i] == BACKSLASH {
        match short_escape(s[i + 1]) {
            Some(b) => Some((b, 2)),
            None => if s[i + 1] == 0x75 && i + 5 < s.len() && s[i + 2] == 0x30 && s[i + 3] == 0x30 {
                match (hex_value(s[i + 4]), hex_value(s[i + 5])) {
                    (Some(high), Some(low)) => if high < 8 {
                        Some(((16 * high + low) as u8, 6))
                    } else {
                        None
                    },
                    _ => None,
                }
            } else {
                None
            },
        }
    } else {
        None
    }
}

/// What the string literal stands for whose content goes on at `i`, as bytes, and the index behind
/// its closing quotation mark, as long as its escapes are those for ASCII characters.
pub open spec fn literal_at(s: Seq<u8>, i: int) -> Option<(Seq<u8>, int)>
    decreases s.len() - i,
{
    if i < 0 || i >= s.len() {
        None
    } else if s[i] == QUOTE {
        Some((seq![], i + 1))
    } else if plain_byte(s[i]) {
        match literal_at(s, i + 1) {
            Some((rest, end)) => Some((seq![s[i]] + rest, end)),
            None => None,
        }
    } else {
        match escape_at(s, i) {
            Some((b, n)) => match literal_at(s, i + n) {
                Some((rest, end)) => Some((seq![b] + rest, end)),
                None => None,
            },
            None => None,
        }
    }
}

/// What the string literal that `s` starts with stands for, and the index behind it.
pub open spec fn literal(s: Seq<u8>) -> Option<(Seq<u8>, int)> {
    if s.len() > 0 && s[0] == QUOTE {
        literal_at(s, 1)
    } else {
        None
    }
}

/// What the string literal that makes up all of `s` stands for.
pub open spec fn whole_literal(s: Seq<u8>) -> Option<Seq<u8>> {
    match literal(s) {
        Some((content, end)) => if end == s.len() {
            Some(content)
        } else {
            None
        },
        None => None,
    }
}

/// The bytes of `null`.
pub open spec fn null_bytes() -> Seq<u8> {
    seq![0x6e, 0x75, 0x6c, 0x6c]
}

/// The bytes of `true`.
pub open spec fn true_bytes() -> Seq<u8> {
    seq![0x74, 0x72, 0x75, 0x65]
}

/// The bytes of `false`.
pub open spec fn false_bytes() -> Seq<u8> {
    seq![0x66, 0x61, 0x6c, 0x73, 0x65]
}

/// Whether a word ends where `rest` goes on.
pub open spec fn ends_word(rest: Seq<u8>) -> bool {
    closes_value(rest) || is_space(rest[0]) || rest[0] == QUOTE || rest[0] == 0x5b || rest[0] == 0x7b
}

/// Whether `s` starts with this word.
pub open spec fn starts_word(s: Seq<u8>, word: Seq<u8>) -> bool {
    &&& s.len() >= word.len()
    &&& s[0] == word[0]
    &&& s.take(word.len() as int) == word
    &&& ends_word(s.skip(word.len() as int))
}

/// The length of the word that `s` starts with, one of `null`, `true` and `false`.
#[verifier::opaque]
pub open spec fn word_len(s: Seq<u8>) -> Option<nat> {
    if starts_word(s, null_bytes()) || starts_word(s, true_bytes()) {
        Some(4)
    } else if starts_word(s, false_bytes()) {
        Some(5)
    } else {
        None
    }
}

/// Whether a byte is a decimal digit.
pub open spec fn is_digit(b: u8) -> bool {
    0x30 <= b <= 0x39
}

/// The index of the first byte at or after `i` that is no digit, or the length of `s`.
pub open spec fn digits_end(s: Seq<u8>, i: int) -> int
    decreases s.len() - i,
{
    if 0 <= i < s.len() && is_digit(s[i]) {
        digits_end(s, i + 1)
    } else {
        i
    }
}

/// The index behind the digits that a number has to have at `i`: a zero alone, or digits that
/// start with another one.
pub open spec fn whole_end(s: Seq<u8>, i: int) -> Option<int> {
    if !(0 <= i < s.len() && is_digit(s[i])) || (s[i] == 0x30 && digits_end(s, i) > i + 1) {
        None
    } else {
        Some(digits_end(s, i))
    }
}

/// The index behind the fraction that a number may have at `i`: a point and digits.
pub open spec fn fraction_end(s: Seq<u8>, i: int) -> Option<int> {
    if 0 <= i < s.len() && s[i] == 0x2e {
        if digits_end(s, i + 1) > i + 1 {
            Some(digits_end(s, i + 1))
        } else {
            None
        }
    } else {
        Some(i)
    }
}

/// The index behind the exponent that a number may have at `i`: the letter E, a sign if there is
/// one, and digits.
pub open spec fn exponent_end(s: Seq<u8>, i: int) -> Option<int> {
    if 0 <= i < s.len() && (s[i] == 0x65 || s[i] == 0x45) {
        let j = if i + 1 < s.len() && (s[i + 1] == 0x2b || s[i + 1] == 0x2d) {
            i + 2
        } else {
            i + 1
        };
        if digits_end(s, j) > j {
            Some(digits_end(s, j))
        } else {
            None
        }
    } else {
        Some(i)
    }
}

/// The length of the number that `s` starts with.
#[verifier::opaque]
pub open spec fn number_len(s: Seq<u8>) -> Option<nat> {
    let start: int = if s.len() > 0 && s[0] == 0x2d {
        1
    } else {
        0
    };
    match whole_end(s, start) {
        Some(whole) => match fraction_end(s, whole) {
            Some(fraction) => match exponent_end(s, fraction) {
                Some(end) => if ends_word(s.skip(end)) {
                    Some(end as nat)
                } else {
                    None
                },
                None => None,
            },
            None => None,
        },
        None => None,
    }
}

/// The number of bytes up to the end of the first JSON value of `input`, as `serde_json`
/// reads it, unless it refuses the value or what stands directly behind it.
///
/// This is the name of what [`value_len`] does not say by itself.
pub uninterp spec fn skipped(input: Seq<u8>) -> Option<nat>;

/// The string that `serde_json` reads from the whole of `input`.
///
/// This is the name of what [`string_value`] does not say by itself.
pub uninterp spec fn string_read(input: Seq<u8>) -> Option<Seq<char>>;

/// The error with which `serde_json` refuses a text that holds no JSON value.
pub uninterp spec fn text_refused(text: Seq<char>) -> serde_json::Error;

/// The length of the JSON value that `input` starts with. A string literal ends behind its closing
/// quotation mark, a word behind its last letter, a number where it can go no further, and an
/// object or array behind its parts.
pub open spec fn value_len(input: Seq<u8>) -> Option<nat>
    decreases input.len(), 3nat, 0nat,
{
    match literal(input) {
        Some((_, end)) => Some(end as nat),
        None => match word_len(input) {
            Some(n) => Some(n),
            None => match number_len(input) {
                Some(n) => Some(n),
                None => match layout(input) {
                    Some((_, end)) => Some(end as nat),
                    None => skipped(input),
                },
            },
        },
    }
}

/// The string that a JSON value stands for, if it is a string.
pub open spec fn string_value(input: Seq<u8>) -> Option<Seq<char>> {
    match whole_literal(input) {
        Some(content) => if valid_utf8(content) {
            Some(decode_utf8(content))
        } else {
            None
        },
        None => string_read(input),
    }
}

/// Whether a JSON value is the number `n`.
pub open spec fn is_number(input: Seq<u8>, n: i32) -> bool {
    input == encode_utf8(signed_decimal(n as int))
}

/// The number that a JSON value is, if it is a whole one that 32 bits can hold.
pub open spec fn i32_value(input: Seq<u8>) -> Option<i32> {
    if exists|n: i32| is_number(input, n) {
        Some(choose|n: i32| is_number(input, n))
    } else {
        None
    }
}

/// Whether `rest` is empty or starts with one of the marks that end a value.
pub open spec fn closes_value(rest: Seq<u8>) -> bool {
    rest.len() == 0 || rest[0] == 0x2c || rest[0] == 0x3a || rest[0] == 0x5d || rest[0] == 0x7d
}

/// Whether `s` is one JSON value, without white space round it: it starts with neither white
/// space nor a mark that ends a value, and it is read whole, whatever follows behind such a
/// mark.
pub open spec fn is_value(s: Seq<u8>) -> bool {
    &&& s.len() > 0
    &&& !is_space(s[0])
    &&& !closes_value(s)
    &&& forall|rest: Seq<u8>|
        closes_value(rest) ==> #[trigger] value_len(s + rest) == Some(s.len())
}

/// A hexadecimal digit, in lower case.
pub open spec fn hex_digit(d: nat) -> char {
    if d < 10 {
        (d + 48) as char
    } else {
        (d + 87) as char
    }
}

/// A character as it stands in a JSON string literal.
pub open spec fn escape(c: char) -> Seq<char> {
    if c == '"' {
        seq!['\\', '"']
    } else if c == '\\' {
        seq!['\\', '\\']
    } else if c == '\u{8}' {
        seq!['\\', 'b']
    } else if c == '\t' {
        seq!['\\', 't']
    } else if c == '\n' {
        seq!['\\', 'n']
    } else if c == '\u{c}' {
        seq!['\\', 'f']
    } else if c == '\r' {
        seq!['\\', 'r']
    } else if '\u{20}' > c {
        seq!['\\', 'u', '0', '0', hex_digit(c as nat / 16), hex_digit(c as nat % 16)]
    } else {
        seq![c]
    }
}

/// A text as it stands between the quotation marks of a JSON string literal.
pub open spec fn escaped(text: Seq<char>) -> Seq<char>
    decreases text.len(),
{
    if text.len() == 0 {
        seq![]
    } else {
        escape(text[0]) + escaped(text.drop_first())
    }
}

/// The JSON string literal of a text.
pub open spec fn quoted(text: Seq<char>) -> Seq<char> {
    seq!['"'] + escaped(text) + seq!['"']
}

/// Whether a text stands in a JSON string literal just as it is.
pub open spec fn needs_no_escape(text: Seq<char>) -> bool {
    forall|i: int|
        0 <= i < text.len() ==> #[trigger] text[i] >= '\u{20}' && text[i] != '"' && text[i] != '\\'
}

/// The text `null`.
pub open spec fn null_text() -> Seq<char> {
    seq!['n', 'u', 'l', 'l']
}

/// Finds the end of the JSON value that `input` starts with: `serde_json`'s
/// `StreamDeserializer` over `IgnoredAny`, whose first item is taken and whose byte offset is
/// then read. A string literal ends behind its closing quotation mark, a word behind its last
/// letter, a number where it can go no further, and an object or array behind its parts; of
/// other values the length is only named. It is never more than what there is, and what was
/// read is a value by itself: it is read whole as well where a mark that ends values follows
/// it, or nothing.
#[verifier::external_body]
pub(crate) fn skip_value(input: &[u8]) -> (r: Option<usize>)
    requires
        input@.len() > 0,
        !is_space(input@[0]),
    ensures
        r matches Some(n) ==> value_len(input@) == Some(n as nat),
        r is None ==> value_len(input@) is None,
        r is None ==> skipped(input@) is None,
        r matches Some(n) ==> 0 < n <= input@.len() && is_value(input@.subrange(0, n as int)),
{
    let mut values = serde_json::Deserializer::from_slice(input)
        .into_iter::<serde::de::IgnoredAny>();
    values.next()?.ok()?;
    Some(values.byte_offset())
}

/// Reads a string: `serde_json::from_slice` at the type `String`. What a literal stands for whose
/// escapes are those for ASCII characters has to be UTF-8; what other literals stand for is only
/// named.
#[verifier::external_body]
pub(crate) fn read_string(input: &[u8]) -> (r: Option<String>)
    ensures
        whole_literal(input@) matches Some(content) ==> (r is Some <==> valid_utf8(content)),
        whole_literal(input@) matches Some(content) ==> (r matches Some(t) ==> t@ == decode_utf8(
            content,
        )),
        whole_literal(input@) is None ==> (r matches Some(t) ==> string_read(input@) == Some(t@)),
        whole_literal(input@) is None ==> (r is None ==> string_read(input@) is None),
{
    serde_json::from_slice(input).ok()
}

/// Reads a number: `serde_json::from_slice` at the type `i32`. A value is accepted just when it
/// is the decimal form of such a number, as it is written.
#[verifier::external_body]
pub(crate) fn read_i32(input: &[u8]) -> (r: Option<i32>)
    requires
        is_value(input@),
    ensures
        r matches Some(n) ==> is_number(input@, n),
        r is None ==> forall|n: i32| !is_number(input@, n),
{
    serde_json::from_slice(input).ok()
}

/// Takes a value as raw JSON: `serde_json::from_slice` at the type `Box<RawValue>`. A value
/// is accepted just when it is UTF-8, and is kept byte for byte.
#[verifier::external_body]
pub(crate) fn read_raw(input: &[u8]) -> (r: Option<String>)
    requires
        is_value(input@),
    ensures
        r is Some <==> valid_utf8(input@),
        r matches Some(t) ==> encode_utf8(t@) == input@,
{
    let raw: Box<serde_json::value::RawValue> = serde_json::from_slice(input).ok()?;
    Some(raw.get().to_owned())
}

/// Checks a text: `serde_json::value::RawValue::from_string`. It accepts one JSON value with
/// white space round it and keeps the value; the error is only named.
#[verifier::external_body]
pub(crate) fn check_raw(text: String) -> (r: Result<String, serde_json::Error>)
    ensures
        r is Ok <==> ({
            let s = encode_utf8(text@);
            let i = skip_space(s, 0);
            &&& i < s.len()
            &&& value_len(s.skip(i)) is Some
            &&& i + value_len(s.skip(i))->0 <= s.len()
            &&& skip_space(s, i + value_len(s.skip(i))->0) == s.len()
        }),
        r matches Ok(t) ==> ({
            let s = encode_utf8(text@);
            let i = skip_space(s, 0);
            encode_utf8(t@) == s.subrange(i, i + value_len(s.skip(i))->0)
        }),
        r matches Ok(t) ==> is_value(encode_utf8(t@)),
        r matches Err(e) ==> e == text_refused(text@),
{
    let raw = serde_json::value::RawValue::from_string(text)?;
    Ok(raw.get().to_owned())
}

/// Writes a string literal: `serde_json::to_string` at the type `str`. Writing to memory
/// does not fail.
#[verifier::external_body]
pub(crate) fn write_string(text: &str) -> (r: Result<String, serde_json::Error>)
    ensures
        r is Ok,
        r matches Ok(t) ==> t@ == quoted(text@),
{
    serde_json::to_string(text)
}

/// Writes a number: `serde_json::to_string` at the type `i32`. Writing to memory does not
/// fail.
#[verifier::external_body]
pub(crate) fn write_i32(n: i32) -> (r: Result<String, serde_json::Error>)
    ensures
        r is Ok,
        r matches Ok(t) ==> t@ == signed_decimal(n as int),
{
    serde_json::to_string(&n)
}

/// `null` is a JSON value.
pub proof fn lemma_null()
    ensures
        encode_utf8(null_text()) == null_bytes(),
        is_value(null_bytes()),
{
    reveal(word_len);
    let s = null_bytes();
    is_ascii_chars_encode_utf8(null_text());
    assert(encode_utf8(null_text()) =~= s) by {
        assert(null_text()[0] as u8 == 0x6e);
        assert(null_text()[1] as u8 == 0x75);
        assert(null_text()[2] as u8 == 0x6c);
        assert(null_text()[3] as u8 == 0x6c);
    }
    assert forall|rest: Seq<u8>| closes_value(rest) implies #[trigger] value_len(s + rest)
        == Some(s.len()) by {
        assert((s + rest).skip(4) =~= rest);
        assert((s + rest)[0] == 0x6e);
        assert((s + rest).take(4) =~= s);
    }
}

/// The JSON value that a text holds, without the white space round it, if it holds one.
pub open spec fn json_in(text: Seq<char>) -> Result<Seq<char>, serde_json::Error> {
    let s = encode_utf8(text);
    let i = skip_space(s, 0);
    match value_len(s.skip(i)) {
        Some(n) => if i < s.len() && i + n <= s.len() && skip_space(s, i + n) == s.len() {
            Ok(decode_utf8(s.subrange(i, i + n)))
        } else {
            Err(text_refused(text))
        },
        None => Err(text_refused(text)),
    }
}

/// Where digits end, whatever follows behind something that is none.
proof fn lemma_digits_end(s: Seq<u8>, i: int, end: int)
    requires
        0 <= i <= end <= s.len(),
        forall|k: int| i <= k < end ==> is_digit(#[trigger] s[k]),
        end < s.len() ==> !is_digit(s[end]),
    ensures
        digits_end(s, i) == end,
    decreases end - i,
{
    if i < end {
        assert(is_digit(s[i]));
        lemma_digits_end(s, i + 1, end);
    }
}

/// The decimal form of a number is a JSON value.
pub proof fn number_is_value(n: int)
    ensures
        is_value(encode_utf8(signed_decimal(n))),
{
    reveal(word_len);
    reveal(number_len);
    let text = signed_decimal(n);
    let s = encode_utf8(text);
    let digits = decimal(if n < 0 {
        (-n) as nat
    } else {
        n as nat
    });
    let start: int = if n < 0 {
        1
    } else {
        0
    };
    lemma_decimal_digits(if n < 0 {
        (-n) as nat
    } else {
        n as nat
    });
    assert forall|k: int| start <= k < text.len() implies '0' <= #[trigger] text[k] <= '9' && text[k]
        == digits[k - start] by {}
    is_ascii_chars_encode_utf8(text);
    assert forall|k: int| start <= k < s.len() implies is_digit(#[trigger] s[k]) by {
        assert(s[k] == text[k] as u8);
    }
    assert(s[start] == text[start] as u8);
    if n < 0 {
        assert(text[0] == '-');
        assert(s[0] == text[0] as u8);
    }
    assert forall|rest: Seq<u8>| closes_value(rest) implies #[trigger] value_len(s + rest) == Some(
        s.len(),
    ) by {
        let t = s + rest;
        assert(t[0] == s[0]);
        assert forall|k: int| start <= k < s.len() implies is_digit(#[trigger] t[k]) by {
            assert(t[k] == s[k]);
        }
        if rest.len() > 0 {
            assert(t[s.len() as int] == rest[0]);
        }
        lemma_digits_end(t, start, s.len() as int);
        assert(t.skip(s.len() as int) =~= rest);
        assert(literal(t) is None);
        assert(word_len(t) is None);
    }
}

/// The number that was written is the one that is read.
pub proof fn lemma_number(n: i32)
    ensures
        i32_value(encode_utf8(signed_decimal(n as int))) == Some(n),
{
    let s = encode_utf8(signed_decimal(n as int));
    assert(is_number(s, n));
    let m = choose|m: i32| is_number(s, m);
    encode_utf8_decode_utf8(signed_decimal(n as int));
    encode_utf8_decode_utf8(signed_decimal(m as int));
    if m != n {
        signed_decimal_is_injective(m as int, n as int);
    }
}

/// A JSON value as text, in the form in which it was received or is to be sent.
#[derive(Debug)]
pub struct RawJson {
    text: String,
}

impl View for RawJson {
    type V = Seq<char>;

    closed spec fn view(&self) -> Seq<char> {
        self.text@
    }
}

impl RawJson {
    /// What it holds is one JSON value, without white space round it.
    #[verifier::type_invariant]
    pub open spec fn holds_value(self) -> bool {
        is_value(encode_utf8(self@))
    }

    /// Takes a text for raw JSON. White space round the value is dropped.
    pub fn from_string(text: String) -> (r: Result<RawJson, serde_json::Error>)
        ensures
            match r {
                Ok(json) => json_in(text@) == Ok::<Seq<char>, serde_json::Error>(json@),
                Err(error) => json_in(text@) == Err::<Seq<char>, serde_json::Error>(error),
            },
    {
        match check_raw(text) {
            Ok(checked) => {
                proof {
                    encode_utf8_decode_utf8(checked@);
                }
                Ok(RawJson { text: checked })
            },
            Err(error) => Err(error),
        }
    }

    /// Takes the bytes of a value for raw JSON.
    pub(crate) fn from_value(bytes: &[u8]) -> (r: Option<RawJson>)
        requires
            is_value(bytes@),
        ensures
            match r {
                Some(json) => valid_utf8(bytes@) && json@ == decode_utf8(bytes@),
                None => !valid_utf8(bytes@),
            },
    {
        match read_raw(bytes) {
            Some(text) => {
                proof {
                    encode_utf8_decode_utf8(text@);
                }
                Some(RawJson { text })
            },
            None => None,
        }
    }

    /// The string literal of a text.
    pub(crate) fn string(text: &str) -> (json: RawJson)
        ensures
            json@ == quoted(text@),
    {
        proof {
            literal_is_read_back(text@);
        }
        match write_string(text) {
            Ok(literal) => RawJson { text: literal },
            Err(_) => vstd::pervasive::unreached(),
        }
    }

    /// A number.
    pub(crate) fn number(n: i32) -> (json: RawJson)
        ensures
            json@ == signed_decimal(n as int),
    {
        proof {
            number_is_value(n as int);
        }
        match write_i32(n) {
            Ok(number) => RawJson { text: number },
            Err(_) => vstd::pervasive::unreached(),
        }
    }

    /// The JSON value `null`.
    pub fn null() -> (json: RawJson)
        ensures
            json@ == null_text(),
    {
        let text = "null".to_owned();
        proof {
            reveal_strlit("null");
            assert(text@ =~= null_text());
            lemma_null();
        }
        RawJson { text }
    }

    /// The text of the value.
    pub fn get(&self) -> (text: &str)
        ensures
            text@ == self@,
    {
        self.text.as_str()
    }
}

impl Clone for RawJson {
    fn clone(&self) -> (json: Self)
        ensures
            json@ == self@,
    {
        proof {
            use_type_invariant(self);
        }
        RawJson { text: self.text.clone() }
    }
}

} // verus!
