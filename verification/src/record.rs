//! Documents that hold the fields of a record: an object with one member for each field, or a list
//! with the fields in their order.

use vstd::prelude::*;

use crate::json::{
    find_member, integer_of, lemma_items_view, lemma_member_names, lemma_members_view, member_views,
    unsigned_of, Json, JsonView,
};
use crate::text::same;

verus! {

/// The field of a record with a name and a place.
pub open spec fn part_of(document: JsonView, name: Seq<char>, place: int) -> Option<JsonView> {
    match document {
        JsonView::Object(members) => if members.contains_key(name) {
            Some(members[name])
        } else {
            None
        },
        JsonView::Array(items) => if 0 <= place < items.len() {
            Some(items[place])
        } else {
            None
        },
        _ => None,
    }
}

/// The text that a field holds.
pub open spec fn text_part(document: JsonView, name: Seq<char>, place: int) -> Option<Seq<char>> {
    match part_of(document, name, place) {
        Some(JsonView::Text(text)) => Some(text),
        _ => None,
    }
}

/// The unsigned integer that a field holds.
pub open spec fn unsigned_part(document: JsonView, name: Seq<char>, place: int) -> Option<u64> {
    match part_of(document, name, place) {
        Some(JsonView::Number(number)) => unsigned_of(number),
        _ => None,
    }
}

/// The signed integer that a field holds.
pub open spec fn integer_part(document: JsonView, name: Seq<char>, place: int) -> Option<i64> {
    match part_of(document, name, place) {
        Some(JsonView::Number(number)) => integer_of(number),
        _ => None,
    }
}

/// The object that a field holds.
pub open spec fn object_part(document: JsonView, name: Seq<char>, place: int) -> Option<
    Map<Seq<char>, JsonView>,
> {
    match part_of(document, name, place) {
        Some(JsonView::Object(members)) => Some(members),
        _ => None,
    }
}

/// The names of a record's fields.
pub open spec fn field_names(names: Seq<&'static str>) -> Seq<Seq<char>> {
    Seq::new(names.len(), |i: int| names[i]@)
}

/// A document that holds nothing but fields of a record.
pub open spec fn holds_only(document: JsonView, names: Seq<Seq<char>>) -> bool {
    match document {
        JsonView::Object(members) => forall|name: Seq<char>| #[trigger]
            members.contains_key(name) ==> names.contains(name),
        JsonView::Array(items) => items.len() <= names.len(),
        _ => false,
    }
}

pub fn part<'a>(json: &'a Json, name: &str, place: usize) -> (value: Option<&'a Json>)
    ensures
        value is Some == part_of(json@, name@, place as int) is Some,
        value matches Some(v) ==> part_of(json@, name@, place as int) == Some(v@),
{
    match json {
        Json::Object(members) => match find_member(members, name) {
            Some(k) => Some(&members[k].1),
            None => None,
        },
        Json::Array(items) => {
            proof {
                lemma_items_view(items@);
            }
            if place < items.len() {
                Some(&items[place])
            } else {
                None
            }
        },
        _ => None,
    }
}

/// The text, where there is one.
pub open spec fn optional_text(text: Option<&String>) -> Option<Seq<char>> {
    match text {
        Some(t) => Some(t@),
        None => None,
    }
}

pub fn text_field<'a>(json: &'a Json, name: &str, place: usize) -> (text: Option<&'a String>)
    ensures
        optional_text(text) == text_part(json@, name@, place as int),
{
    match part(json, name, place) {
        Some(Json::Text(text)) => Some(text),
        _ => None,
    }
}

pub fn unsigned_field(json: &Json, name: &str, place: usize) -> (n: Option<u64>)
    ensures
        n == unsigned_part(json@, name@, place as int),
{
    match part(json, name, place) {
        Some(Json::Number(number)) => number.as_unsigned(),
        _ => None,
    }
}

pub fn integer_field(json: &Json, name: &str, place: usize) -> (n: Option<i64>)
    ensures
        n == integer_part(json@, name@, place as int),
{
    match part(json, name, place) {
        Some(Json::Number(number)) => number.as_integer(),
        _ => None,
    }
}

pub fn object_field<'a>(json: &'a Json, name: &str, place: usize) -> (members: Option<
    &'a Vec<(String, Json)>,
>)
    ensures
        members is Some == object_part(json@, name@, place as int) is Some,
        members matches Some(m) ==> object_part(json@, name@, place as int) == Some(
            crate::json::members_view(m@),
        ),
{
    match part(json, name, place) {
        Some(Json::Object(members)) => Some(members),
        _ => None,
    }
}

/// Whether a document holds nothing but fields of a record.
pub fn only_fields(json: &Json, names: &Vec<&'static str>) -> (r: bool)
    ensures
        r == holds_only(json@, field_names(names@)),
{
    match json {
        Json::Object(members) => {
            proof {
                lemma_members_view(members@);
            }
            for i in 0..members.len()
                invariant
                    json@ == JsonView::Object(crate::json::object_of(member_views(members@))),
                    forall|j: int|
                        0 <= j < i ==> field_names(names@).contains((#[trigger] members@[j]).0@),
            {
                if !named(names, members[i].0.as_str()) {
                    proof {
                        let views = member_views(members@);
                        assert(views[i as int].0 == members@[i as int].0@);
                        lemma_member_names(views, members@[i as int].0@);
                        let name = members@[i as int].0@;
                        assert(json@->Object_0.contains_key(name));
                        assert(!field_names(names@).contains(name));
                    }
                    return false;
                }
            }
            proof {
                let views = member_views(members@);
                assert forall|name: Seq<char>| #[trigger]
                    crate::json::object_of(views).contains_key(name) implies field_names(
                    names@,
                ).contains(name) by {
                    lemma_member_names(views, name);
                    let k = choose|k: int| 0 <= k < views.len() && (#[trigger] views[k]).0 == name;
                    assert(members@[k].0@ == name);
                }
            }
            true
        },
        Json::Array(items) => {
            proof {
                lemma_items_view(items@);
            }
            items.len() <= names.len()
        },
        _ => false,
    }
}

/// Whether a name is one of a list.
pub fn named(names: &Vec<&'static str>, name: &str) -> (r: bool)
    ensures
        r == field_names(names@).contains(name@),
{
    for i in 0..names.len()
        invariant
            forall|j: int| 0 <= j < i ==> field_names(names@)[j] != name@,
    {
        if same(names[i], name) {
            assert(field_names(names@)[i as int] == name@);
            return true;
        }
    }
    false
}

/// A field is found under its name in an object, and at its place in a list; a document of any other
/// kind has no fields.
pub proof fn fields_by_name_or_place(
    members: Map<Seq<char>, JsonView>,
    items: Seq<JsonView>,
    name: Seq<char>,
    place: int,
)
    ensures
        members.contains_key(name) ==> part_of(JsonView::Object(members), name, place) == Some(
            members[name],
        ),
        !members.contains_key(name) ==> part_of(JsonView::Object(members), name, place) is None,
        0 <= place < items.len() ==> part_of(JsonView::Array(items), name, place) == Some(
            items[place],
        ),
        place >= items.len() ==> part_of(JsonView::Array(items), name, place) is None,
        part_of(JsonView::Null, name, place) is None,
        forall|text: Seq<char>| #[trigger] part_of(JsonView::Text(text), name, place) is None,
{
}

/// A field holds a text, a number or an object only where it is one.
pub proof fn fields_by_kind(document: JsonView, name: Seq<char>, place: int)
    ensures
        text_part(document, name, place) matches Some(text) ==> part_of(document, name, place)
            == Some(JsonView::Text(text)),
        part_of(document, name, place) matches Some(JsonView::Text(text)) ==> text_part(
            document,
            name,
            place,
        ) == Some(text),
        object_part(document, name, place) matches Some(members) ==> part_of(document, name, place)
            == Some(JsonView::Object(members)),
        part_of(document, name, place) matches Some(JsonView::Object(members)) ==> object_part(
            document,
            name,
            place,
        ) == Some(members),
        part_of(document, name, place) matches Some(JsonView::Number(number)) ==> unsigned_part(
            document,
            name,
            place,
        ) == unsigned_of(number) && integer_part(document, name, place) == integer_of(number),
        unsigned_part(document, name, place) is Some ==> (part_of(document, name, place)
            matches Some(part) && part is Number),
        integer_part(document, name, place) is Some ==> (part_of(document, name, place)
            matches Some(part) && part is Number),
{
}

/// A document with a field of another name, or with more fields than there are, does not hold only the
/// fields of a record; an empty one does.
pub proof fn only_known_fields(
    members: Map<Seq<char>, JsonView>,
    items: Seq<JsonView>,
    names: Seq<Seq<char>>,
    name: Seq<char>,
)
    ensures
        holds_only(JsonView::Object(Map::empty()), names),
        members.contains_key(name) && !names.contains(name) ==> !holds_only(
            JsonView::Object(members),
            names,
        ),
        holds_only(JsonView::Object(members), names) && names.contains(name) ==> holds_only(
            JsonView::Object(members.insert(name, JsonView::Null)),
            names,
        ),
        holds_only(JsonView::Array(items), names) <==> items.len() <= names.len(),
        !holds_only(JsonView::Null, names),
{
    let document = JsonView::Object(members);
    let more = JsonView::Object(members.insert(name, JsonView::Null));
    if holds_only(document, names) {
        assert forall|other: Seq<char>| #[trigger] members.contains_key(other) implies names.contains(
            other,
        ) by {
            assert(document->Object_0.contains_key(other));
        }
        if names.contains(name) {
            assert forall|other: Seq<char>| #[trigger]
                more->Object_0.contains_key(other) implies names.contains(other) by {
                if other != name {
                    assert(members.contains_key(other));
                }
            }
        }
    }
}

} // verus!
