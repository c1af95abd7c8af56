//! The named fields of a message, taken from the parts of a JSON object or array.
//!
//! A message is an object whose members carry the names of its fields, in any order; other
//! members are passed over, and a field may not occur twice. It may also be an array that
//! lists the fields in their order.
use crate::json::{i32_value, is_value, lemma_number, read_i32, read_string, string_value, RawJson};
use crate::layout::{Member, MemberView, Parts, PartsView};
use crate::text::same_text;
use vstd::prelude::*;
use vstd::utf8::{decode_utf8, valid_utf8};

verus! {

/// What a message holds of a field.
pub enum FieldView {
    /// Nothing.
    Missing,
    /// One value.
    Value(Seq<u8>),
    /// More than one value.
    Duplicate,
}

/// What a list of members holds under a name.
pub open spec fn named(members: Seq<MemberView>, name: Seq<char>) -> FieldView
    decreases members.len(),
{
    if members.len() == 0 {
        FieldView::Missing
    } else {
        let before = named(members.drop_last(), name);
        if members.last().name != name {
            before
        } else if before is Missing {
            FieldView::Value(members.last().value)
        } else {
            FieldView::Duplicate
        }
    }
}

/// A name that one member alone has is that member's.
pub proof fn lemma_named_once(members: Seq<MemberView>, i: int, name: Seq<char>)
    requires
        0 <= i < members.len(),
        members[i].name == name,
        forall|j: int| 0 <= j < members.len() && j != i ==> (#[trigger] members[j]).name != name,
    ensures
        named(members, name) == FieldView::Value(members[i].value),
    decreases members.len(),
{
    let before = members.drop_last();
    if i == members.len() - 1 {
        assert forall|j: int| 0 <= j < before.len() implies (#[trigger] before[j]).name != name by {
            assert(before[j] == members[j]);
        }
        lemma_named_missing(before, name);
    } else {
        assert forall|j: int| 0 <= j < before.len() && j != i implies (#[trigger] before[j]).name
            != name by {
            assert(before[j] == members[j]);
        }
        lemma_named_once(before, i, name);
        assert(members.last() == members[members.len() - 1]);
    }
}

/// A name that no member has is missing.
pub proof fn lemma_named_missing(members: Seq<MemberView>, name: Seq<char>)
    requires
        forall|j: int| 0 <= j < members.len() ==> (#[trigger] members[j]).name != name,
    ensures
        named(members, name) is Missing,
    decreases members.len(),
{
    if members.len() > 0 {
        let before = members.drop_last();
        assert forall|j: int| 0 <= j < before.len() implies (#[trigger] before[j]).name != name by {
            assert(before[j] == members[j]);
        }
        lemma_named_missing(before, name);
        assert(members.last() == members[members.len() - 1]);
    }
}

/// What a message holds of the field with this name, which is the one at `index` in an array.
pub open spec fn field(parts: PartsView, name: Seq<char>, index: int) -> FieldView {
    match parts {
        PartsView::Members(members) => named(members, name),
        PartsView::Elements(elements) => if 0 <= index < elements.len() {
            FieldView::Value(elements[index])
        } else {
            FieldView::Missing
        },
    }
}

/// Whether an array has between `least` and `most` elements. An object always passes.
pub open spec fn fits(parts: PartsView, least: int, most: int) -> bool {
    match parts {
        PartsView::Members(_) => true,
        PartsView::Elements(elements) => least <= elements.len() <= most,
    }
}

/// The text that a field has to hold.
pub open spec fn string_field(parts: PartsView, name: Seq<char>, index: int) -> Option<Seq<char>> {
    match field(parts, name, index) {
        FieldView::Missing => None,
        FieldView::Value(value) => string_value(value),
        FieldView::Duplicate => None,
    }
}

/// Whether a value is `null`: no other value starts with its first letter.
pub open spec fn is_null(value: Seq<u8>) -> bool {
    value.len() > 0 && value[0] == 0x6e
}

/// The text that a field may hold. It may also be missing or `null`.
pub open spec fn optional_string_field(parts: PartsView, name: Seq<char>, index: int) -> Option<
    Option<Seq<char>>,
> {
    match field(parts, name, index) {
        FieldView::Missing => Some(None),
        FieldView::Value(value) => if is_null(value) {
            Some(None)
        } else {
            match string_value(value) {
                Some(text) => Some(Some(text)),
                None => None,
            }
        },
        FieldView::Duplicate => None,
    }
}

/// The number that a field has to hold.
pub open spec fn i32_field(parts: PartsView, name: Seq<char>, index: int) -> Option<i32> {
    match field(parts, name, index) {
        FieldView::Missing => None,
        FieldView::Value(value) => i32_value(value),
        FieldView::Duplicate => None,
    }
}

/// A value as text.
pub open spec fn raw_value(value: Seq<u8>) -> Option<Seq<char>> {
    if valid_utf8(value) {
        Some(decode_utf8(value))
    } else {
        None
    }
}

/// The value that a field has to hold, as text.
pub open spec fn raw_field(parts: PartsView, name: Seq<char>, index: int) -> Option<Seq<char>> {
    match field(parts, name, index) {
        FieldView::Missing => None,
        FieldView::Value(value) => raw_value(value),
        FieldView::Duplicate => None,
    }
}

/// The value that a field may hold, as text. It may also be missing or `null`.
pub open spec fn optional_raw_field(parts: PartsView, name: Seq<char>, index: int) -> Option<
    Option<Seq<char>>,
> {
    match field(parts, name, index) {
        FieldView::Missing => Some(None),
        FieldView::Value(value) => if is_null(value) {
            Some(None)
        } else {
            match raw_value(value) {
                Some(text) => Some(Some(text)),
                None => None,
            }
        },
        FieldView::Duplicate => None,
    }
}

fn find_member<'a>(members: &'a Vec<Member>, name: &str) -> (r: Option<Option<&'a Vec<u8>>>)
    requires
        forall|j: int| 0 <= j < members@.len() ==> is_value(#[trigger] members@[j].value@),
    ensures
        match r {
            Some(None) => named(members@.map_values(|m: Member| m@), name@) is Missing,
            Some(Some(value)) => named(members@.map_values(|m: Member| m@), name@)
                == FieldView::Value(value@) && is_value(value@),
            None => named(members@.map_values(|m: Member| m@), name@) is Duplicate,
        },
{
    let mut found: Option<&'a Vec<u8>> = None;
    let mut twice: bool = false;
    let ghost views = members@.map_values(|m: Member| m@);
    let mut i: usize = 0;
    while i < members.len()
        invariant
            i <= members@.len(),
            views == members@.map_values(|m: Member| m@),
            forall|j: int| 0 <= j < members@.len() ==> is_value(#[trigger] members@[j].value@),
            named(views.take(i as int), name@) == (if twice {
                FieldView::Duplicate
            } else {
                match found {
                    Some(value) => FieldView::Value(value@),
                    None => FieldView::Missing,
                }
            }),
            found matches Some(value) ==> is_value(value@),
        decreases members@.len() - i,
    {
        assert(views.take(i + 1).drop_last() =~= views.take(i as int));
        if same_text(members[i].name.as_str(), name) {
            if twice || found.is_some() {
                twice = true;
            } else {
                found = Some(&members[i].value);
            }
        }
        i = i + 1;
    }
    assert(views.take(i as int) =~= views);
    if twice {
        None
    } else {
        Some(found)
    }
}

/// Looks a field up.
pub(crate) fn find<'a>(parts: &'a Parts, name: &str, index: usize) -> (r:
    Option<Option<&'a Vec<u8>>>)
    requires
        parts.hold_values(),
    ensures
        match r {
            Some(None) => field(parts@, name@, index as int) is Missing,
            Some(Some(value)) => field(parts@, name@, index as int) == FieldView::Value(value@)
                && is_value(value@),
            None => field(parts@, name@, index as int) is Duplicate,
        },
{
    match parts {
        Parts::Members(members) => find_member(members, name),
        Parts::Elements(elements) => {
            if index < elements.len() {
                Some(Some(&elements[index]))
            } else {
                Some(None)
            }
        },
    }
}

/// Checks the number of elements of an array.
pub(crate) fn check_fits(parts: &Parts, least: usize, most: usize) -> (r: bool)
    ensures
        r == fits(parts@, least as int, most as int),
{
    match parts {
        Parts::Members(_) => true,
        Parts::Elements(elements) => least <= elements.len() && elements.len() <= most,
    }
}

/// Reads the text that a field has to hold.
pub(crate) fn read_string_field(parts: &Parts, name: &str, index: usize) -> (r: Option<String>)
    requires
        parts.hold_values(),
    ensures
        match r {
            Some(text) => string_field(parts@, name@, index as int) == Some(text@),
            None => string_field(parts@, name@, index as int) is None,
        },
{
    match find(parts, name, index) {
        Some(Some(value)) => read_string(value.as_slice()),
        Some(None) => None,
        None => None,
    }
}

/// Reads the text that a field may hold.
pub(crate) fn read_optional_string_field(parts: &Parts, name: &str, index: usize) -> (r:
    Option<Option<String>>)
    requires
        parts.hold_values(),
    ensures
        match r {
            Some(None) => optional_string_field(parts@, name@, index as int) == Some(
                None::<Seq<char>>,
            ),
            Some(Some(text)) => optional_string_field(parts@, name@, index as int) == Some(
                Some(text@),
            ),
            None => optional_string_field(parts@, name@, index as int) is None,
        },
{
    match find(parts, name, index) {
        Some(Some(value)) => {
            if value[0] == 0x6e {
                return Some(None);
            }
            match read_string(value.as_slice()) {
                Some(text) => Some(Some(text)),
                None => None,
            }
        },
        Some(None) => Some(None),
        None => None,
    }
}

/// Reads the number that a field has to hold.
pub(crate) fn read_i32_field(parts: &Parts, name: &str, index: usize) -> (r: Option<i32>)
    requires
        parts.hold_values(),
    ensures
        match r {
            Some(n) => i32_field(parts@, name@, index as int) == Some(n),
            None => i32_field(parts@, name@, index as int) is None,
        },
{
    match find(parts, name, index) {
        Some(Some(value)) => match read_i32(value.as_slice()) {
            Some(n) => {
                proof {
                    lemma_number(n);
                }
                Some(n)
            },
            None => None,
        },
        Some(None) => None,
        None => None,
    }
}

/// Reads the value that a field has to hold.
pub(crate) fn read_raw_field(parts: &Parts, name: &str, index: usize) -> (r: Option<RawJson>)
    requires
        parts.hold_values(),
    ensures
        match r {
            Some(json) => raw_field(parts@, name@, index as int) == Some(json@),
            None => raw_field(parts@, name@, index as int) is None,
        },
{
    match find(parts, name, index) {
        Some(Some(value)) => RawJson::from_value(value.as_slice()),
        Some(None) => None,
        None => None,
    }
}

/// Reads the value that a field may hold.
pub(crate) fn read_optional_raw_field(parts: &Parts, name: &str, index: usize) -> (r:
    Option<Option<RawJson>>)
    requires
        parts.hold_values(),
    ensures
        match r {
            Some(None) => optional_raw_field(parts@, name@, index as int) == Some(None::<Seq<char>>),
            Some(Some(json)) => optional_raw_field(parts@, name@, index as int) == Some(Some(json@)),
            None => optional_raw_field(parts@, name@, index as int) is None,
        },
{
    match find(parts, name, index) {
        Some(Some(value)) => {
            if value[0] == 0x6e {
                return Some(None);
            }
            match RawJson::from_value(value.as_slice()) {
                Some(json) => Some(Some(json)),
                None => None,
            }
        },
        Some(None) => Some(None),
        None => None,
    }
}

} // verus!
