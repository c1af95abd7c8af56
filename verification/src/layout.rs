//! How the bytes of a JSON object or array are laid out into their parts.
use crate::json::{
    is_space, is_value, read_string, skip_space, skip_value, string_value, value_len, QUOTE,
};
use vstd::prelude::*;
use vstd::slice::{slice_subrange, slice_to_vec};

verus! {

/// The opening brace.
pub const OPEN_OBJECT: u8 = 0x7b;

/// The closing brace.
pub const CLOSE_OBJECT: u8 = 0x7d;

/// The opening bracket.
pub const OPEN_ARRAY: u8 = 0x5b;

/// The closing bracket.
pub const CLOSE_ARRAY: u8 = 0x5d;

/// The comma.
pub const COMMA: u8 = 0x2c;

/// The colon.
pub const COLON: u8 = 0x3a;

/// A member of a JSON object: its name, and the bytes of its value.
pub struct MemberView {
    pub name: Seq<char>,
    pub value: Seq<u8>,
}

/// The parts of a JSON object or array.
pub enum PartsView {
    Members(Seq<MemberView>),
    Elements(Seq<Seq<u8>>),
}

pub proof fn lemma_skip_space(s: Seq<u8>, i: int)
    requires
        0 <= i <= s.len(),
    ensures
        i <= skip_space(s, i) <= s.len(),
        skip_space(s, i) < s.len() ==> !is_space(s[skip_space(s, i)]),
    decreases s.len() - i,
{
    if i < s.len() && is_space(s[i]) {
        lemma_skip_space(s, i + 1);
    }
}

/// The index behind the value that starts at `i`.
pub open spec fn value_end(s: Seq<u8>, i: int) -> Option<int>
    decreases s.len(), 0nat, 0nat,
{
    if 0 < i < s.len() {
        match value_len(s.skip(i)) {
            Some(n) => if 0 < n && i + n <= s.len() {
                Some(i + n)
            } else {
                None
            },
            None => None,
        }
    } else {
        None
    }
}

/// One member, from its name at `i` to the mark behind its value: the member and the index of
/// that mark.
pub open spec fn member_at(s: Seq<u8>, i: int) -> Option<(MemberView, int)>
    decreases s.len(), 0nat, 1nat,
{
    if 0 < i < s.len() && s[i] == QUOTE {
        match value_end(s, i) {
            Some(k) => match string_value(s.subrange(i, k)) {
                Some(name) => {
                    let colon = skip_space(s, k);
                    if colon < s.len() && s[colon] == COLON {
                        let v = skip_space(s, colon + 1);
                        match value_end(s, v) {
                            Some(e) => Some(
                                (MemberView { name, value: s.subrange(v, e) }, skip_space(s, e)),
                            ),
                            None => None,
                        }
                    } else {
                        None
                    }
                },
                None => None,
            },
            None => None,
        }
    } else {
        None
    }
}

/// The members of an object from the name at `i` on, and the index behind the object.
pub open spec fn members_from(s: Seq<u8>, i: int) -> Option<(Seq<MemberView>, int)>
    decreases s.len(), 1nat, s.len() - i,
{
    match member_at(s, i) {
        Some((member, mark)) => if i < mark < s.len() && s[mark] == CLOSE_OBJECT {
            Some((seq![member], mark + 1))
        } else if 0 <= i < mark < s.len() && s[mark] == COMMA {
            proof {
                lemma_skip_space(s, mark + 1);
            }
            match members_from(s, skip_space(s, mark + 1)) {
                Some((rest, end)) => Some((seq![member] + rest, end)),
                None => None,
            }
        } else {
            None
        },
        None => None,
    }
}

/// The elements of an array from the value at `i` on, and the index behind the array.
pub open spec fn elements_from(s: Seq<u8>, i: int) -> Option<(Seq<Seq<u8>>, int)>
    decreases s.len(), 1nat, s.len() - i,
{
    match value_end(s, i) {
        Some(e) => {
            let mark = skip_space(s, e);
            if i < mark < s.len() && s[mark] == CLOSE_ARRAY {
                Some((seq![s.subrange(i, e)], mark + 1))
            } else if 0 <= i < mark < s.len() && s[mark] == COMMA {
                proof {
                    lemma_skip_space(s, mark + 1);
                }
                match elements_from(s, skip_space(s, mark + 1)) {
                    Some((rest, end)) => Some((seq![s.subrange(i, e)] + rest, end)),
                    None => None,
                }
            } else {
                None
            }
        },
        None => None,
    }
}

/// The parts of the object or array that `s` starts with, and the index behind it.
pub open spec fn layout(s: Seq<u8>) -> Option<(PartsView, int)>
    decreases s.len(), 2nat, 0nat,
{
    if s.len() == 0 {
        None
    } else {
        let i = skip_space(s, 1);
        if s[0] == OPEN_OBJECT {
            if i < s.len() && s[i] == CLOSE_OBJECT {
                Some((PartsView::Members(seq![]), i + 1))
            } else {
                match members_from(s, i) {
                    Some((members, end)) => Some((PartsView::Members(members), end)),
                    None => None,
                }
            }
        } else if s[0] == OPEN_ARRAY {
            if i < s.len() && s[i] == CLOSE_ARRAY {
                Some((PartsView::Elements(seq![]), i + 1))
            } else {
                match elements_from(s, i) {
                    Some((elements, end)) => Some((PartsView::Elements(elements), end)),
                    None => None,
                }
            }
        } else {
            None
        }
    }
}

/// The parts of the object or array that makes up all of `s`, white space round it aside.
#[verifier::opaque]
pub open spec fn document(s: Seq<u8>) -> Option<PartsView> {
    let t = s.skip(skip_space(s, 0));
    match layout(t) {
        Some((parts, end)) => if skip_space(t, end) == t.len() {
            Some(parts)
        } else {
            None
        },
        None => None,
    }
}

/// A member of a JSON object, with its value as bytes.
pub struct Member {
    pub name: String,
    pub value: Vec<u8>,
}

impl View for Member {
    type V = MemberView;

    open spec fn view(&self) -> MemberView {
        MemberView { name: self.name@, value: self.value@ }
    }
}

/// The parts of a JSON object or array, with values as bytes.
pub enum Parts {
    Members(Vec<Member>),
    Elements(Vec<Vec<u8>>),
}

impl View for Parts {
    type V = PartsView;

    open spec fn view(&self) -> PartsView {
        match self {
            Parts::Members(members) => PartsView::Members(members@.map_values(|m: Member| m@)),
            Parts::Elements(elements) => PartsView::Elements(
                elements@.map_values(|e: Vec<u8>| e@),
            ),
        }
    }
}

impl Parts {
    /// Every part is a JSON value.
    pub open spec fn hold_values(self) -> bool {
        match self {
            Parts::Members(members) => forall|j: int|
                0 <= j < members@.len() ==> is_value(#[trigger] members@[j].value@),
            Parts::Elements(elements) => forall|j: int|
                0 <= j < elements@.len() ==> is_value(#[trigger] elements@[j]@),
        }
    }
}

fn space_end(s: &[u8], i: usize) -> (r: usize)
    requires
        i <= s@.len(),
    ensures
        r == skip_space(s@, i as int),
        i <= r <= s@.len(),
        r < s@.len() ==> !is_space(s@[r as int]),
{
    let mut j: usize = i;
    while j < s.len() && (s[j] == 0x20 || s[j] == 0x0a || s[j] == 0x0d || s[j] == 0x09)
        invariant
            i <= j <= s@.len(),
            skip_space(s@, i as int) == skip_space(s@, j as int),
        decreases s@.len() - j,
    {
        j = j + 1;
    }
    j
}

fn read_value_end(s: &[u8], i: usize) -> (r: Option<usize>)
    requires
        0 < i <= s@.len(),
        i < s@.len() ==> !is_space(s@[i as int]),
    ensures
        match r {
            Some(e) => value_end(s@, i as int) == Some(e as int) && i < e
                <= s@.len() && is_value(s@.subrange(i as int, e as int)),
            None => value_end(s@, i as int) is None,
        },
{
    if i == s.len() {
        return None;
    }
    let rest = slice_subrange(s, i, s.len());
    assert(rest@ == s@.skip(i as int));
    match skip_value(rest) {
        Some(n) => {
            assert(rest@.subrange(0, n as int) =~= s@.subrange(i as int, i + n));
            Some(i + n)
        },
        None => None,
    }
}

fn read_member(s: &[u8], i: usize) -> (r: Option<(Member, usize)>)
    requires
        0 < i <= s@.len(),
        i < s@.len() ==> !is_space(s@[i as int]),
    ensures
        match r {
            Some((member, mark)) => member_at(s@, i as int) == Some((member@, mark as int)) && i
                < mark <= s@.len() && is_value(member@.value),
            None => member_at(s@, i as int) is None,
        },
{
    if i == s.len() || s[i] != QUOTE {
        return None;
    }
    let k = match read_value_end(s, i) {
        Some(k) => k,
        None => {
            return None;
        },
    };
    let name = match read_string(slice_subrange(s, i, k)) {
        Some(name) => name,
        None => {
            return None;
        },
    };
    let colon = space_end(s, k);
    if colon == s.len() || s[colon] != COLON {
        return None;
    }
    let v = space_end(s, colon + 1);
    match read_value_end(s, v) {
        Some(e) => {
            let value = slice_to_vec(slice_subrange(s, v, e));
            let mark = space_end(s, e);
            Some((Member { name, value }, mark))
        },
        None => None,
    }
}

fn read_members(s: &[u8], start: usize) -> (r: Option<(Vec<Member>, usize)>)
    requires
        0 < start <= s@.len(),
        start < s@.len() ==> !is_space(s@[start as int]),
    ensures
        match r {
            Some((members, end)) => members_from(s@, start as int) == Some(
                (members@.map_values(|m: Member| m@), end as int),
            ) && end <= s@.len() && (forall|j: int|
                0 <= j < members@.len() ==> is_value(#[trigger] members@[j].value@)),
            None => members_from(s@, start as int) is None,
        },
{
    let mut members: Vec<Member> = Vec::new();
    let mut i: usize = start;
    assert(members@.map_values(|m: Member| m@) =~= seq![]);
    proof {
        if let Some((rest, end)) = members_from(s@, start as int) {
            assert(seq![] + rest =~= rest);
        }
    }
    loop
        invariant
            0 < start <= i <= s@.len(),
            i < s@.len() ==> !is_space(s@[i as int]),
            forall|j: int| 0 <= j < members@.len() ==> is_value(#[trigger] members@[j].value@),
            members_from(s@, start as int) == (match members_from(s@, i as int) {
                Some((rest, end)) => Some((members@.map_values(|m: Member| m@) + rest, end)),
                None => None,
            }),
        decreases s@.len() - i,
    {
        let ghost before = members@.map_values(|m: Member| m@);
        match read_member(s, i) {
            Some((member, mark)) => {
                let ghost view = member@;
                members.push(member);
                assert(members@.map_values(|m: Member| m@) =~= before.push(view));
                if mark == s.len() {
                    return None;
                }
                if s[mark] == CLOSE_OBJECT {
                    assert(before + seq![view] =~= before.push(view));
                    return Some((members, mark + 1));
                }
                if s[mark] != COMMA {
                    return None;
                }
                i = space_end(s, mark + 1);
                proof {
                    if let Some((rest, end)) = members_from(s@, i as int) {
                        assert(before + (seq![view] + rest) =~= before.push(view) + rest);
                    }
                }
            },
            None => {
                return None;
            },
        }
    }
}

fn read_elements(s: &[u8], start: usize) -> (r: Option<(Vec<Vec<u8>>, usize)>)
    requires
        0 < start <= s@.len(),
        start < s@.len() ==> !is_space(s@[start as int]),
    ensures
        match r {
            Some((elements, end)) => elements_from(s@, start as int) == Some(
                (elements@.map_values(|e: Vec<u8>| e@), end as int),
            ) && end <= s@.len() && (forall|j: int|
                0 <= j < elements@.len() ==> is_value(#[trigger] elements@[j]@)),
            None => elements_from(s@, start as int) is None,
        },
{
    let mut elements: Vec<Vec<u8>> = Vec::new();
    let mut i: usize = start;
    assert(elements@.map_values(|e: Vec<u8>| e@) =~= seq![]);
    proof {
        if let Some((rest, end)) = elements_from(s@, start as int) {
            assert(seq![] + rest =~= rest);
        }
    }
    loop
        invariant
            0 < start <= i <= s@.len(),
            i < s@.len() ==> !is_space(s@[i as int]),
            forall|j: int| 0 <= j < elements@.len() ==> is_value(#[trigger] elements@[j]@),
            elements_from(s@, start as int) == (match elements_from(s@, i as int) {
                Some((rest, end)) => Some((elements@.map_values(|e: Vec<u8>| e@) + rest, end)),
                None => None,
            }),
        decreases s@.len() - i,
    {
        let ghost before = elements@.map_values(|e: Vec<u8>| e@);
        match read_value_end(s, i) {
            Some(e) => {
                let value = slice_to_vec(slice_subrange(s, i, e));
                let ghost view = value@;
                elements.push(value);
                assert(elements@.map_values(|e: Vec<u8>| e@) =~= before.push(view));
                let mark = space_end(s, e);
                if mark == s.len() {
                    return None;
                }
                if s[mark] == CLOSE_ARRAY {
                    assert(before + seq![view] =~= before.push(view));
                    return Some((elements, mark + 1));
                }
                if s[mark] != COMMA {
                    return None;
                }
                i = space_end(s, mark + 1);
                proof {
                    if let Some((rest, end)) = elements_from(s@, i as int) {
                        assert(before + (seq![view] + rest) =~= before.push(view) + rest);
                    }
                }
            },
            None => {
                return None;
            },
        }
    }
}

fn read_layout(s: &[u8]) -> (r: Option<(Parts, usize)>)
    ensures
        match r {
            Some((parts, end)) => layout(s@) == Some(
                (parts@, end as int),
            ) && end <= s@.len() && parts.hold_values(),
            None => layout(s@) is None,
        },
{
    if s.len() == 0 {
        return None;
    }
    let i = space_end(s, 1);
    if s[0] == OPEN_OBJECT {
        if i < s.len() && s[i] == CLOSE_OBJECT {
            let none: Vec<Member> = Vec::new();
            assert(none@.map_values(|m: Member| m@) =~= seq![]);
            return Some((Parts::Members(none), i + 1));
        }
        match read_members(s, i) {
            Some((members, end)) => Some((Parts::Members(members), end)),
            None => None,
        }
    } else if s[0] == OPEN_ARRAY {
        if i < s.len() && s[i] == CLOSE_ARRAY {
            let none: Vec<Vec<u8>> = Vec::new();
            assert(none@.map_values(|e: Vec<u8>| e@) =~= seq![]);
            return Some((Parts::Elements(none), i + 1));
        }
        match read_elements(s, i) {
            Some((elements, end)) => Some((Parts::Elements(elements), end)),
            None => None,
        }
    } else {
        None
    }
}

/// Takes a JSON object or array apart. The bytes have to hold one of them and nothing else
/// but white space round it.
pub(crate) fn read_document(bytes: &[u8]) -> (r: Option<Parts>)
    ensures
        match r {
            Some(parts) => document(bytes@) == Some(parts@)
                && parts.hold_values(),
            None => document(bytes@) is None,
        },
{
    proof {
        reveal(document);
    }
    let start = space_end(bytes, 0);
    let t = slice_subrange(bytes, start, bytes.len());
    assert(t@ == bytes@.skip(start as int));
    match read_layout(t) {
        Some((parts, end)) => {
            if space_end(t, end) == t.len() {
                Some(parts)
            } else {
                None
            }
        },
        None => None,
    }
}

} // verus!
