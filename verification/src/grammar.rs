//! How an object or array has to be written for its parts to be read from it.
use crate::json::{is_space, skip_space, string_value, value_len, QUOTE};
use crate::layout::{
    document, elements_from, layout, member_at, members_from, value_end, MemberView, PartsView,
    CLOSE_ARRAY, CLOSE_OBJECT, COLON, COMMA, OPEN_ARRAY, OPEN_OBJECT,
};
use vstd::prelude::*;

verus! {

/// Whether bytes are all white space.
pub open spec fn blank(s: Seq<u8>) -> bool {
    forall|i: int| 0 <= i < s.len() ==> is_space(#[trigger] s[i])
}

pub(crate) proof fn lemma_skips_blank(s: Seq<u8>, i: int, n: int)
    requires
        0 <= i <= n <= s.len(),
        forall|k: int| i <= k < n ==> is_space(#[trigger] s[k]),
        n < s.len() ==> !is_space(s[n]),
    ensures
        skip_space(s, i) == n,
    decreases n - i,
{
    if i < n {
        assert(is_space(s[i]));
        lemma_skips_blank(s, i + 1, n);
    }
}

pub(crate) proof fn lemma_skipped_is_blank(s: Seq<u8>, i: int)
    requires
        0 <= i <= s.len(),
    ensures
        i <= skip_space(s, i) <= s.len(),
        blank(s.subrange(i, skip_space(s, i))),
    decreases s.len() - i,
{
    if i < s.len() && is_space(s[i]) {
        lemma_skipped_is_blank(s, i + 1);
        let end = skip_space(s, i + 1);
        assert forall|k: int| 0 <= k < end - i implies is_space(#[trigger] s.subrange(i, end)[k]) by {
            if k > 0 {
                assert(s.subrange(i + 1, end)[k - 1] == s[i + k]);
            }
        }
    }
}

/// Whether there is nothing but white space from `i` up to `j`.
pub open spec fn blank_between(s: Seq<u8>, i: int, j: int) -> bool {
    0 <= i <= j <= s.len() && forall|k: int| i <= k < j ==> is_space(#[trigger] s[k])
}

/// Whether one JSON value goes from `i` up to `j`.
pub open spec fn value_between(s: Seq<u8>, i: int, j: int) -> bool {
    0 < i < j <= s.len() && !is_space(s[i]) && value_len(s.skip(i)) == Some((j - i) as nat)
}

/// Whether a member is written from `i` on: white space, its name from `n` to `k`, a colon at `c`
/// with white space round it, its value from `v` to `e`, and white space up to `m`.
pub open spec fn is_written(
    s: Seq<u8>,
    i: int,
    n: int,
    k: int,
    c: int,
    v: int,
    e: int,
    m: int,
    member: MemberView,
) -> bool {
    &&& blank_between(s, i, n)
    &&& value_between(s, n, k)
    &&& s[n] == QUOTE
    &&& string_value(s.subrange(n, k)) == Some(member.name)
    &&& blank_between(s, k, c)
    &&& c < s.len()
    &&& s[c] == COLON
    &&& blank_between(s, c + 1, v)
    &&& value_between(s, v, e)
    &&& s.subrange(v, e) == member.value
    &&& blank_between(s, e, m)
    &&& m < s.len()
}

/// Whether these members, separated by commas, are written from `i` on, with the closing brace
/// behind them, up to `end`.
pub open spec fn are_written(s: Seq<u8>, i: int, members: Seq<MemberView>, end: int) -> bool
    decreases members.len(),
{
    members.len() > 0 && exists|n: int, k: int, c: int, v: int, e: int, m: int|
        {
            &&& #[trigger] is_written(s, i, n, k, c, v, e, m, members[0])
            &&& if members.len() == 1 {
                s[m] == CLOSE_OBJECT && end == m + 1
            } else {
                s[m] == COMMA && are_written(s, m + 1, members.drop_first(), end)
            }
        }
}

/// Whether an element is written from `i` on: white space, its value from `v` to `e`, and white
/// space up to `m`.
pub open spec fn is_listed(s: Seq<u8>, i: int, v: int, e: int, m: int, element: Seq<u8>) -> bool {
    &&& blank_between(s, i, v)
    &&& value_between(s, v, e)
    &&& s.subrange(v, e) == element
    &&& blank_between(s, e, m)
    &&& m < s.len()
}

/// Whether these elements, separated by commas, are written from `i` on, with the closing bracket
/// behind them, up to `end`.
pub open spec fn are_listed(s: Seq<u8>, i: int, elements: Seq<Seq<u8>>, end: int) -> bool
    decreases elements.len(),
{
    elements.len() > 0 && exists|v: int, e: int, m: int|
        {
            &&& #[trigger] is_listed(s, i, v, e, m, elements[0])
            &&& if elements.len() == 1 {
                s[m] == CLOSE_ARRAY && end == m + 1
            } else {
                s[m] == COMMA && are_listed(s, m + 1, elements.drop_first(), end)
            }
        }
}

/// White space is what JSON takes for it, and the marks are those of JSON.
pub proof fn marks_are_those_of_json(b: u8)
    ensures
        is_space(b) <==> b == ' ' as u8 || b == '\n' as u8 || b == '\r' as u8 || b == '\t' as u8,
        QUOTE == '"' as u8,
        COMMA == ',' as u8,
        COLON == ':' as u8,
        OPEN_OBJECT == '{' as u8,
        CLOSE_OBJECT == '}' as u8,
        OPEN_ARRAY == '[' as u8,
        CLOSE_ARRAY == ']' as u8,
{
}

/// White space is skipped up to what is none.
proof fn lemma_blank(s: Seq<u8>, i: int)
    requires
        0 <= i <= s.len(),
    ensures
        blank_between(s, i, skip_space(s, i)),
        skip_space(s, i) < s.len() ==> !is_space(s[skip_space(s, i)]),
        forall|j: int| #[trigger]
            blank_between(s, i, j) && j < s.len() && !is_space(s[j]) ==> skip_space(s, i) == j,
        blank_between(s, i, s.len() as int) ==> skip_space(s, i) == s.len(),
{
    crate::layout::lemma_skip_space(s, i);
    lemma_skipped_is_blank(s, i);
    let end = skip_space(s, i);
    assert forall|k: int| i <= k < end implies is_space(#[trigger] s[k]) by {
        assert(s.subrange(i, end)[k - i] == s[k]);
    }
    assert forall|j: int| #[trigger]
        blank_between(s, i, j) && j < s.len() && !is_space(s[j]) implies skip_space(s, i) == j by {
        lemma_skips_blank(s, i, j);
    }
    if blank_between(s, i, s.len() as int) {
        lemma_skips_blank(s, i, s.len() as int);
    }
}

proof fn lemma_member_written(
    s: Seq<u8>,
    i: int,
    n: int,
    k: int,
    c: int,
    v: int,
    e: int,
    m: int,
    member: MemberView,
)
    requires
        0 < i <= s.len(),
        is_written(s, i, n, k, c, v, e, m, member),
        !is_space(s[m]),
    ensures
        skip_space(s, i) == n,
        member_at(s, n) == Some((member, m)),
        i <= n < m,
{
    lemma_blank(s, i);
    lemma_blank(s, k);
    lemma_blank(s, c + 1);
    lemma_blank(s, e);
    assert(!is_space(COLON));
}

proof fn lemma_written_member(s: Seq<u8>, i: int, member: MemberView, m: int)
    requires
        0 < i <= s.len(),
        member_at(s, skip_space(s, i)) == Some((member, m)),
        m < s.len(),
    ensures
        ({
            let n = skip_space(s, i);
            let k = value_end(s, n)->0;
            let c = skip_space(s, k);
            let v = skip_space(s, c + 1);
            let e = value_end(s, v)->0;
            is_written(s, i, n, k, c, v, e, m, member)
        }),
        i < m,
{
    let n = skip_space(s, i);
    lemma_blank(s, i);
    let k = value_end(s, n)->0;
    lemma_blank(s, k);
    let c = skip_space(s, k);
    lemma_blank(s, c + 1);
    let v = skip_space(s, c + 1);
    let e = value_end(s, v)->0;
    lemma_blank(s, e);
}

proof fn lemma_members(s: Seq<u8>, i: int, members: Seq<MemberView>, end: int)
    requires
        0 < i <= s.len(),
    ensures
        members_from(s, skip_space(s, i)) == Some((members, end)) <==> are_written(
            s,
            i,
            members,
            end,
        ),
    decreases s.len() - i,
{
    let n = skip_space(s, i);
    lemma_blank(s, i);
    if members_from(s, n) == Some((members, end)) {
        let (member, m) = member_at(s, n)->0;
        lemma_written_member(s, i, member, m);
        let k = value_end(s, n)->0;
        let c = skip_space(s, k);
        let v = skip_space(s, c + 1);
        let e = value_end(s, v)->0;
        assert(members[0] == member);
        assert(is_written(s, i, n, k, c, v, e, m, members[0]));
        if s[m] != CLOSE_OBJECT {
            let (rest, last) = members_from(s, skip_space(s, m + 1))->0;
            assert(members.drop_first() =~= rest);
            lemma_members(s, m + 1, rest, end);
            assert(rest.len() > 0);
        }
    }
    if are_written(s, i, members, end) {
        let (n2, k, c, v, e, m) = choose|n: int, k: int, c: int, v: int, e: int, m: int|
            {
                &&& #[trigger] is_written(s, i, n, k, c, v, e, m, members[0])
                &&& if members.len() == 1 {
                    s[m] == CLOSE_OBJECT && end == m + 1
                } else {
                    s[m] == COMMA && are_written(s, m + 1, members.drop_first(), end)
                }
            };
        lemma_member_written(s, i, n2, k, c, v, e, m, members[0]);
        if members.len() == 1 {
            assert(members =~= seq![members[0]]);
        } else {
            lemma_members(s, m + 1, members.drop_first(), end);
            assert(members =~= seq![members[0]] + members.drop_first());
        }
    }
}

proof fn lemma_elements(s: Seq<u8>, i: int, elements: Seq<Seq<u8>>, end: int)
    requires
        0 < i <= s.len(),
    ensures
        elements_from(s, skip_space(s, i)) == Some((elements, end)) <==> are_listed(
            s,
            i,
            elements,
            end,
        ),
    decreases s.len() - i,
{
    let v = skip_space(s, i);
    lemma_blank(s, i);
    if elements_from(s, v) == Some((elements, end)) {
        let e = value_end(s, v)->0;
        lemma_blank(s, e);
        let m = skip_space(s, e);
        assert(elements[0] == s.subrange(v, e));
        assert(is_listed(s, i, v, e, m, elements[0]));
        if s[m] != CLOSE_ARRAY {
            let (rest, last) = elements_from(s, skip_space(s, m + 1))->0;
            assert(elements.drop_first() =~= rest);
            lemma_elements(s, m + 1, rest, end);
            assert(rest.len() > 0);
        }
    }
    if are_listed(s, i, elements, end) {
        let (v2, e, m) = choose|v: int, e: int, m: int|
            {
                &&& #[trigger] is_listed(s, i, v, e, m, elements[0])
                &&& if elements.len() == 1 {
                    s[m] == CLOSE_ARRAY && end == m + 1
                } else {
                    s[m] == COMMA && are_listed(s, m + 1, elements.drop_first(), end)
                }
            };
        lemma_blank(s, e);
        if elements.len() == 1 {
            assert(elements =~= seq![elements[0]]);
        } else {
            lemma_elements(s, m + 1, elements.drop_first(), end);
            assert(elements =~= seq![elements[0]] + elements.drop_first());
        }
    }
}

/// An object is read just where it is written as one: its members between braces, separated by
/// commas, each a string, a colon and a value, with white space anywhere between them. What is
/// read are its members, in their order.
pub proof fn objects_are_read_as_they_are_written(
    s: Seq<u8>,
    members: Seq<MemberView>,
    end: int,
)
    ensures
        layout(s) == Some((PartsView::Members(members), end)) <==> {
            &&& s.len() > 0
            &&& s[0] == OPEN_OBJECT
            &&& are_written(s, 1, members, end) || (members.len() == 0 && exists|j: int| #[trigger]
                blank_between(s, 1, j) && j < s.len() && s[j] == CLOSE_OBJECT && end == j + 1)
        },
{
    if s.len() > 0 && s[0] == OPEN_OBJECT {
        lemma_blank(s, 1);
        lemma_members(s, 1, members, end);
        let i = skip_space(s, 1);
        if members.len() == 0 {
            assert(members =~= seq![]);
        }
        if i < s.len() && s[i] == CLOSE_OBJECT {
            assert(members_from(s, i) is None);
            if layout(s) == Some((PartsView::Members(members), end)) {
                assert(blank_between(s, 1, i));
            }
        }
    }
}

/// An array is read just where it is written as one: its elements between brackets, separated by
/// commas, with white space anywhere between them. What is read are its elements, in their order.
pub proof fn arrays_are_read_as_they_are_written(
    s: Seq<u8>,
    elements: Seq<Seq<u8>>,
    end: int,
)
    ensures
        layout(s) == Some((PartsView::Elements(elements), end)) ==> s.len() > 0 && s[0] == OPEN_ARRAY,
        s.len() > 0 && s[0] == OPEN_ARRAY && are_listed(s, 1, elements, end) && elements[0][0]
            != CLOSE_ARRAY ==> layout(s) == Some((PartsView::Elements(elements), end)),
        layout(s) == Some((PartsView::Elements(elements), end)) ==> are_listed(s, 1, elements, end)
            || (elements.len() == 0 && exists|j: int| #[trigger]
            blank_between(s, 1, j) && j < s.len() && s[j] == CLOSE_ARRAY && end == j + 1),
        s.len() > 0 && s[0] == OPEN_ARRAY && elements.len() == 0 && (exists|j: int| #[trigger]
            blank_between(s, 1, j) && j < s.len() && s[j] == CLOSE_ARRAY && end == j + 1)
            ==> layout(s) == Some((PartsView::Elements(elements), end)),
{
    if s.len() > 0 && s[0] == OPEN_ARRAY {
        lemma_blank(s, 1);
        lemma_elements(s, 1, elements, end);
        if elements.len() == 0 {
            assert(elements =~= seq![]);
        }
        if are_listed(s, 1, elements, end) {
            let v = skip_space(s, 1);
            assert(elements[0] == s.subrange(v, value_end(s, v)->0));
            assert(elements[0][0] == s[v]);
        }
    }
}

/// Bytes hold an object or array just where there is one in them with nothing but white space
/// round it.
pub proof fn documents_are_objects_or_arrays(s: Seq<u8>, parts: PartsView, i: int, end: int)
    requires
        blank_between(s, 0, i),
        i < s.len() ==> !is_space(s[i]),
    ensures
        layout(s.skip(i)) == Some((parts, end)) && blank_between(
            s.skip(i),
            end,
            s.len() - i,
        ) ==> document(s) == Some(parts),
        layout(s.skip(i)) is None ==> document(s) is None,
        layout(s.skip(i)) == Some((parts, end)) && 0 <= end <= s.len() - i && !blank_between(
            s.skip(i),
            end,
            s.len() - i,
        ) ==> document(s) is None,
{
    reveal(document);
    lemma_blank(s, 0);
    if i == s.len() {
        lemma_skips_blank(s, 0, i);
    }
    let t = s.skip(i);
    if 0 <= end <= t.len() {
        lemma_blank(t, end);
    }
}

} // verus!
