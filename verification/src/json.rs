//! JSON documents as plain values, and the outside calls that read, write and check them.
use vstd::prelude::*;

use crate::text::same;

verus! {

/// A JSON number.
pub struct JsonNumber {
    form: NumberForm,
}

/// The three forms of a number.
pub enum NumberForm {
    /// An integer that is not negative.
    Unsigned(u64),
    /// A negative integer.
    Negative(i64),
    /// Any other number, as `serde_json` prints it.
    Float(String),
}

/// What a number says.
pub enum NumberView {
    Unsigned(u64),
    Negative(i64),
    Float(Seq<char>),
}

/// The texts that `serde_json` prints for numbers that are no integers.
pub uninterp spec fn is_float_text(text: Seq<char>) -> bool;

/// A negative integer is below zero, and any other number is in printed form.
pub open spec fn is_number_form(form: NumberForm) -> bool {
    match form {
        NumberForm::Unsigned(_) => true,
        NumberForm::Negative(n) => n < 0,
        NumberForm::Float(text) => is_float_text(text@),
    }
}

/// What a form of a number says.
pub open spec fn form_view(form: NumberForm) -> NumberView {
    match form {
        NumberForm::Unsigned(n) => NumberView::Unsigned(n),
        NumberForm::Negative(n) => NumberView::Negative(n),
        NumberForm::Float(text) => NumberView::Float(text@),
    }
}

impl View for JsonNumber {
    type V = NumberView;

    closed spec fn view(&self) -> NumberView {
        form_view(self.form)
    }
}

impl JsonNumber {
    #[verifier::type_invariant]
    spec fn well_formed(&self) -> bool {
        is_number_form(self.form)
    }

    /// The number of a form.
    fn from_form(form: NumberForm) -> (number: JsonNumber)
        requires
            is_number_form(form),
        ensures
            number@ == form_view(form),
    {
        JsonNumber { form }
    }

    /// The form of a number.
    fn to_form(&self) -> (form: NumberForm)
        ensures
            is_number_form(form),
            form_view(form) == self@,
    {
        proof {
            use_type_invariant(self);
        }
        match &self.form {
            NumberForm::Unsigned(n) => NumberForm::Unsigned(*n),
            NumberForm::Negative(n) => NumberForm::Negative(*n),
            NumberForm::Float(text) => NumberForm::Float(text.clone()),
        }
    }

    /// An integer that is not negative.
    pub fn unsigned(n: u64) -> (number: JsonNumber)
        ensures
            number@ == NumberView::Unsigned(n),
    {
        JsonNumber::from_form(NumberForm::Unsigned(n))
    }

    /// An integer.
    pub fn integer(n: i64) -> (number: JsonNumber)
        ensures
            n < 0 ==> number@ == NumberView::Negative(n),
            n >= 0 ==> number@ == NumberView::Unsigned(n as u64),
    {
        if n < 0 {
            JsonNumber::from_form(NumberForm::Negative(n))
        } else {
            JsonNumber::from_form(NumberForm::Unsigned(n as u64))
        }
    }

    /// The number as an unsigned integer, where it is one.
    pub fn as_unsigned(&self) -> (n: Option<u64>)
        ensures
            n == unsigned_of(self@),
    {
        match &self.form {
            NumberForm::Unsigned(n) => Some(*n),
            _ => None,
        }
    }

    /// The number as a signed integer, where it is one that fits.
    pub fn as_integer(&self) -> (n: Option<i64>)
        ensures
            n == integer_of(self@),
    {
        match &self.form {
            NumberForm::Unsigned(n) => if *n <= i64::MAX as u64 {
                Some(*n as i64)
            } else {
                None
            },
            NumberForm::Negative(n) => Some(*n),
            NumberForm::Float(_) => None,
        }
    }
}

/// The unsigned integer that a number is.
pub open spec fn unsigned_of(number: NumberView) -> Option<u64> {
    match number {
        NumberView::Unsigned(n) => Some(n),
        _ => None,
    }
}

/// The signed integer that a number is, where it fits.
pub open spec fn integer_of(number: NumberView) -> Option<i64> {
    match number {
        NumberView::Unsigned(n) => if n <= i64::MAX { Some(n as i64) } else { None },
        NumberView::Negative(n) => Some(n),
        NumberView::Float(_) => None,
    }
}

/// Numbers that count as equal: the two zeros with a fraction are one number.
pub open spec fn same_number(a: NumberView, b: NumberView) -> bool {
    match (a, b) {
        (NumberView::Float(x), NumberView::Float(y)) => x == y || is_zero_text(x) && is_zero_text(
            y,
        ),
        _ => a == b,
    }
}

/// The two ways to write zero with a fraction.
pub open spec fn is_zero_text(text: Seq<char>) -> bool {
    text == "0.0"@ || text == "-0.0"@
}

/// Whether two numbers count as equal.
pub fn number_eq(a: &JsonNumber, b: &JsonNumber) -> (r: bool)
    ensures
        r == same_number(a@, b@),
{
    match (&a.form, &b.form) {
        (NumberForm::Unsigned(x), NumberForm::Unsigned(y)) => *x == *y,
        (NumberForm::Negative(x), NumberForm::Negative(y)) => *x == *y,
        (NumberForm::Float(x), NumberForm::Float(y)) => {
            same(x.as_str(), y.as_str()) || ((same(x.as_str(), "0.0") || same(x.as_str(), "-0.0"))
                && (same(y.as_str(), "0.0") || same(y.as_str(), "-0.0")))
        },
        _ => false,
    }
}

/// A JSON document. A member that occurs twice in an object stands for its last occurrence.
pub enum Json {
    Null,
    Bool(bool),
    Number(JsonNumber),
    Text(String),
    Array(Vec<Json>),
    Object(Vec<(String, Json)>),
}

/// What a [`Json`] document says.
#[verifier::ext_equal]
pub enum JsonView {
    Null,
    Bool(bool),
    Number(NumberView),
    Text(Seq<char>),
    Array(Seq<JsonView>),
    Object(Map<Seq<char>, JsonView>),
}

/// The object that a list of members describes: a later member replaces an earlier one.
pub open spec fn object_of(members: Seq<(Seq<char>, JsonView)>) -> Map<Seq<char>, JsonView>
    decreases members.len(),
{
    if members.len() == 0 {
        Map::empty()
    } else {
        object_of(members.drop_last()).insert(members.last().0, members.last().1)
    }
}

/// What a document says.
pub open spec fn json_view(json: Json) -> JsonView
    decreases json,
{
    match json {
        Json::Null => JsonView::Null,
        Json::Bool(b) => JsonView::Bool(b),
        Json::Number(n) => JsonView::Number(n@),
        Json::Text(t) => JsonView::Text(t@),
        Json::Array(items) => JsonView::Array(items_view(items@)),
        Json::Object(members) => JsonView::Object(members_view(members@)),
    }
}

/// What the items of an array say.
pub open spec fn items_view(items: Seq<Json>) -> Seq<JsonView>
    decreases items,
{
    if items.len() == 0 {
        Seq::empty()
    } else {
        items_view(items.drop_last()).push(json_view(items.last()))
    }
}

/// The object that a list of members stands for.
pub open spec fn members_view(members: Seq<(String, Json)>) -> Map<Seq<char>, JsonView>
    decreases members,
{
    if members.len() == 0 {
        Map::empty()
    } else {
        members_view(members.drop_last()).insert(members.last().0@, json_view(members.last().1))
    }
}

impl View for Json {
    type V = JsonView;

    open spec fn view(&self) -> JsonView {
        json_view(*self)
    }
}

/// The members of an object, by what they say.
pub open spec fn member_views(members: Seq<(String, Json)>) -> Seq<(Seq<char>, JsonView)> {
    Seq::new(members.len(), |i: int| (members[i].0@, members[i].1@))
}

/// A list of members stands for the object that their views describe.
pub proof fn lemma_members_view(members: Seq<(String, Json)>)
    ensures
        members_view(members) == object_of(member_views(members)),
    decreases members.len(),
{
    if members.len() > 0 {
        lemma_members_view(members.drop_last());
        assert(member_views(members).drop_last() =~= member_views(members.drop_last()));
    }
}

/// An array says what its items say.
pub proof fn lemma_items_view(items: Seq<Json>)
    ensures
        items_view(items).len() == items.len(),
        forall|i: int| 0 <= i < items.len() ==> #[trigger] items_view(items)[i] == items[i]@,
    decreases items.len(),
{
    if items.len() > 0 {
        lemma_items_view(items.drop_last());
    }
}

/// The last member of a name gives the object's value under that name.
pub proof fn lemma_last_member(members: Seq<(Seq<char>, JsonView)>, i: int)
    requires
        0 <= i < members.len(),
        forall|j: int| i < j < members.len() ==> (#[trigger] members[j]).0 != members[i].0,
    ensures
        object_of(members).contains_key(members[i].0),
        object_of(members)[members[i].0] == members[i].1,
    decreases members.len(),
{
    if i < members.len() - 1 {
        assert(members.drop_last()[i] == members[i]);
        assert forall|j: int| i < j < members.drop_last().len() implies (
        #[trigger] members.drop_last()[j]).0 != members.drop_last()[i].0 by {
            assert(members.drop_last()[j] == members[j]);
        }
        lemma_last_member(members.drop_last(), i);
        assert(members.last().0 != members[i].0);
    }
}

/// An object has a value exactly under the names of its members.
pub proof fn lemma_member_names(members: Seq<(Seq<char>, JsonView)>, name: Seq<char>)
    ensures
        object_of(members).contains_key(name) <==> exists|i: int|
            0 <= i < members.len() && (#[trigger] members[i]).0 == name,
    decreases members.len(),
{
    if members.len() > 0 {
        let front = members.drop_last();
        lemma_member_names(front, name);
        if exists|i: int| 0 <= i < front.len() && (#[trigger] front[i]).0 == name {
            let i = choose|i: int| 0 <= i < front.len() && (#[trigger] front[i]).0 == name;
            assert(members[i].0 == name);
        }
        if exists|i: int| 0 <= i < members.len() && (#[trigger] members[i]).0 == name {
            let i = choose|i: int| 0 <= i < members.len() && (#[trigger] members[i]).0 == name;
            if i < front.len() {
                assert(front[i].0 == name);
            }
        }
    }
}

/// The value under a name, where the document is an object that has one.
pub open spec fn member(document: JsonView, name: Seq<char>) -> Option<JsonView> {
    match document {
        JsonView::Object(members) => if members.contains_key(name) {
            Some(members[name])
        } else {
            None
        },
        _ => None,
    }
}

/// The place of the value under a name in a list of members.
pub fn find_member(members: &Vec<(String, Json)>, name: &str) -> (found: Option<usize>)
    ensures
        found is Some <==> members_view(members@).contains_key(name@),
        found matches Some(i) ==> i < members@.len() && members@[i as int].1@ == members_view(
            members@,
        )[name@] && members@[i as int].0@ == name@,
{
    let ghost listed = member_views(members@);
    let mut i: usize = members.len();
    while i > 0
        invariant
            i <= members@.len(),
            listed == member_views(members@),
            forall|j: int| i <= j < members@.len() ==> (#[trigger] listed[j]).0 != name@,
        decreases i,
    {
        i = i - 1;
        if same(members[i].0.as_str(), name) {
            proof {
                lemma_members_view(members@);
                assert(listed[i as int].0 == name@);
                lemma_last_member(listed, i as int);
            }
            return Some(i);
        }
    }
    proof {
        lemma_members_view(members@);
        lemma_member_names(listed, name@);
    }
    None
}

impl Json {
    /// The value under a name, where the document is an object that has one.
    pub fn get(&self, name: &str) -> (value: Option<&Json>)
        ensures
            value is Some <==> member(self@, name@) is Some,
            value matches Some(v) ==> member(self@, name@) == Some(v@),
    {
        match self {
            Json::Object(members) => {
                match find_member(members, name) {
                    Some(i) => Some(&members[i].1),
                    None => None,
                }
            },
            _ => None,
        }
    }

    /// Whether the document is the given text.
    pub fn is_text(&self, text: &str) -> (r: bool)
        ensures
            r == (self@ == JsonView::Text(text@)),
    {
        match self {
            Json::Text(t) => same(t.as_str(), text),
            _ => false,
        }
    }

    /// Whether the document is the given boolean.
    pub fn is_bool(&self, value: bool) -> (r: bool)
        ensures
            r == (self@ == JsonView::Bool(value)),
    {
        match self {
            Json::Bool(b) => *b == value,
            _ => false,
        }
    }

    /// A copy of the document.
    pub fn copy(&self) -> (json: Json)
        ensures
            json@ == self@,
        decreases self,
    {
        match self {
            Json::Null => Json::Null,
            Json::Bool(b) => Json::Bool(*b),
            Json::Number(n) => Json::Number(JsonNumber::from_form(n.to_form())),
            Json::Text(t) => Json::Text(t.clone()),
            Json::Array(items) => {
                let mut result: Vec<Json> = Vec::new();
                for k in 0..items.len()
                    invariant
                        *self == Json::Array(*items),
                        result@.len() == k,
                        forall|i: int| 0 <= i < k ==> (#[trigger] result@[i])@ == items@[i]@,
                {
                    assert(decreases_to!(*self => self->Array_0));
                    assert(decreases_to!(items@ => items@[k as int]));
                    let item = items[k].copy();
                    result.push(item);
                }
                proof {
                    lemma_items_view(result@);
                    lemma_items_view(items@);
                    assert(items_view(result@) =~= items_view(items@));
                }
                Json::Array(result)
            },
            Json::Object(members) => {
                Json::Object(copy_members(members))
            },
        }
    }
}

/// Adds a member to an object; it replaces what stood under its name.
pub fn put(members: &mut Vec<(String, Json)>, name: &str, value: Json)
    ensures
        members_view(final(members)@) == members_view(old(members)@).insert(name@, value@),
{
    members.push((name.to_owned(), value));
    assert(members@.drop_last() =~= old(members)@);
}

impl Json {
    /// A document that holds a text.
    pub fn text(text: &str) -> (json: Json)
        ensures
            json@ == JsonView::Text(text@),
    {
        Json::Text(text.to_owned())
    }

    /// A document that holds an integer that is not negative.
    pub fn unsigned(n: u64) -> (json: Json)
        ensures
            json@ == JsonView::Number(NumberView::Unsigned(n)),
    {
        Json::Number(JsonNumber::unsigned(n))
    }
}

impl Json {
    /// Whether the document is an object without members.
    pub fn is_empty_object(&self) -> (r: bool)
        ensures
            r == (self@ == JsonView::Object(Map::empty())),
    {
        match self {
            Json::Object(members) => {
                proof {
                    if members@.len() > 0 {
                        assert(members_view(members@).contains_key(members@.last().0@));
                    }
                }
                members.len() == 0
            },
            _ => false,
        }
    }
}

/// What is said of a text that may be missing.
pub open spec fn text_or_null(text: Option<Seq<char>>) -> JsonView {
    match text {
        Some(text) => JsonView::Text(text),
        None => JsonView::Null,
    }
}

/// A document that holds a text or nothing.
pub fn optional_json(text: &Option<String>) -> (json: Json)
    ensures
        json@ == text_or_null(crate::text::text_of(*text)),
{
    match text {
        Some(text) => Json::Text(text.clone()),
        None => Json::Null,
    }
}

/// A copy of a list of members.
pub fn copy_members(members: &Vec<(String, Json)>) -> (copied: Vec<(String, Json)>)
    ensures
        member_views(copied@) == member_views(members@),
        members_view(copied@) == members_view(members@),
    decreases members,
{
    let mut result: Vec<(String, Json)> = Vec::new();
    for k in 0..members.len()
        invariant
            result@.len() == k,
            forall|i: int| 0 <= i < k ==> (#[trigger] result@[i]).0 == members@[i].0,
            forall|i: int| 0 <= i < k ==> (#[trigger] result@[i]).1@ == members@[i].1@,
    {
        assert(decreases_to!(members => members@));
        assert(decreases_to!(members@ => members@[k as int]));
        assert(decreases_to!(members@[k as int] => members@[k as int].1));
        let item = members[k].1.copy();
        result.push((members[k].0.clone(), item));
    }
    proof {
        lemma_members_view(result@);
        lemma_members_view(members@);
        assert(member_views(result@) =~= member_views(members@));
    }
    result
}


/// Two documents are equal: the same items in the same order, the same members in any order.
pub open spec fn same_document(a: JsonView, b: JsonView) -> bool
    decreases a,
{
    match (a, b) {
        (JsonView::Number(x), JsonView::Number(y)) => same_number(x, y),
        (JsonView::Array(x), JsonView::Array(y)) => {
            &&& x.len() == y.len()
            &&& forall|i: int| 0 <= i < x.len() ==> same_document(#[trigger] x[i], y[i])
        },
        (JsonView::Object(x), JsonView::Object(y)) => {
            &&& x.dom() == y.dom()
            &&& forall|name: Seq<char>|
                #[trigger] x.contains_key(name) ==> same_document(x[name], y[name])
        },
        _ => a == b,
    }
}

/// Whether two documents are equal.
pub fn json_eq(a: &Json, b: &Json) -> (r: bool)
    ensures
        r == same_document(a@, b@),
    decreases a, 0nat,
{
    match (a, b) {
        (Json::Null, Json::Null) => true,
        (Json::Bool(x), Json::Bool(y)) => *x == *y,
        (Json::Number(x), Json::Number(y)) => number_eq(x, y),
        (Json::Text(x), Json::Text(y)) => same(x.as_str(), y.as_str()),
        (Json::Array(x), Json::Array(y)) => {
            proof {
                lemma_items_view(x@);
                lemma_items_view(y@);
            }
            if x.len() != y.len() {
                return false;
            }
            for i in 0..x.len()
                invariant
                    *a == Json::Array(*x),
                    *b == Json::Array(*y),
                    x@.len() == y@.len(),
                    items_view(x@).len() == x@.len(),
                    items_view(y@).len() == y@.len(),
                    forall|j: int| 0 <= j < x@.len() ==> #[trigger] items_view(x@)[j] == x@[j]@,
                    forall|j: int| 0 <= j < y@.len() ==> #[trigger] items_view(y@)[j] == y@[j]@,
                    forall|j: int|
                        0 <= j < i ==> same_document(
                            #[trigger] items_view(x@)[j],
                            items_view(y@)[j],
                        ),
            {
                assert(decreases_to!(*a => a->Array_0));
                assert(decreases_to!(x@ => x@[i as int]));
                if !json_eq(&x[i], &y[i]) {
                    assert(!same_document(items_view(x@)[i as int], items_view(y@)[i as int]));
                    return false;
                }
            }
            true
        },
        (Json::Object(x), Json::Object(y)) => {
            assert(decreases_to!(*a => a->Object_0));
            members_eq(x, y)
        },
        _ => false,
    }
}

/// Whether two lists of members stand for the same object.
pub fn members_eq(x: &Vec<(String, Json)>, y: &Vec<(String, Json)>) -> (r: bool)
    ensures
        r == same_document(
            JsonView::Object(members_view(x@)),
            JsonView::Object(members_view(y@)),
        ),
    decreases x, 1nat,
{
    let ghost left = members_view(x@);
    let ghost right = members_view(y@);
    proof {
        lemma_members_view(x@);
        lemma_members_view(y@);
    }
    for i in 0..x.len()
        invariant
            left == members_view(x@),
            right == members_view(y@),
            left == object_of(member_views(x@)),
            forall|j: int|
                0 <= j < i ==> left.contains_key((#[trigger] x@[j]).0@) && right.contains_key(
                    x@[j].0@,
                ) && same_document(left[x@[j].0@], right[x@[j].0@]),
    {
        let name = &x[i].0;
        let own = find_member(x, name.as_str());
        let other = find_member(y, name.as_str());
        proof {
            lemma_member_names(member_views(x@), name@);
            assert(member_views(x@)[i as int].0 == name@);
            assert(left.contains_key(name@));
        }
        match (own, other) {
            (Some(p), Some(q)) => {
                assert(decreases_to!(x => x@));
                assert(decreases_to!(x@ => x@[p as int]));
                assert(decreases_to!(x@[p as int] => x@[p as int].1));
                if !json_eq(&x[p].1, &y[q].1) {
                    assert(!same_document(left[name@], right[name@]));
                    return false;
                }
            },
            _ => {
                assert(left.dom().contains(name@));
                assert(!right.dom().contains(name@));
                return false;
            },
        }
    }
    for i in 0..y.len()
        invariant
            left == members_view(x@),
            right == members_view(y@),
            right == object_of(member_views(y@)),
            forall|j: int| 0 <= j < i ==> left.contains_key((#[trigger] y@[j]).0@),
    {
        let name = &y[i].0;
        if find_member(x, name.as_str()).is_none() {
            proof {
                lemma_member_names(member_views(y@), name@);
                assert(member_views(y@)[i as int].0 == name@);
                assert(right.dom().contains(name@));
                assert(!left.dom().contains(name@));
            }
            return false;
        }
    }
    proof {
        assert forall|name: Seq<char>| #[trigger] left.contains_key(
            name,
        ) implies right.contains_key(name) && same_document(left[name], right[name]) by {
            lemma_member_names(member_views(x@), name);
            let j = choose|j: int|
                0 <= j < member_views(x@).len() && (#[trigger] member_views(x@)[j]).0 == name;
            assert(x@[j].0@ == name);
        }
        assert forall|name: Seq<char>| right.contains_key(name) implies left.contains_key(name) by {
            lemma_member_names(member_views(y@), name);
            let j = choose|j: int|
                0 <= j < member_views(y@).len() && (#[trigger] member_views(y@)[j]).0 == name;
            assert(y@[j].0@ == name);
        }
        assert(left.dom() =~= right.dom());
    }
    true
}


/// A document as `serde_json` holds it.
#[verifier::external_type_specification]
#[verifier::external_body]
pub struct ExJsonValue(serde_json::Value);

/// What a document of `serde_json` says.
pub uninterp spec fn value_content(value: serde_json::Value) -> JsonView;

/// A document of `serde_json`, one level taken apart.
pub enum OpenedValue {
    Null,
    Bool(bool),
    Number(NumberForm),
    Text(String),
    Array(Vec<serde_json::Value>),
    Object(Vec<(String, serde_json::Value)>),
}

/// The items of an array of `serde_json`, by what they say.
pub open spec fn value_items(items: Seq<serde_json::Value>) -> Seq<JsonView> {
    Seq::new(items.len(), |i: int| value_content(items[i]))
}

/// The members of an object of `serde_json`, by what they say.
pub open spec fn value_members(members: Seq<(String, serde_json::Value)>) -> Seq<
    (Seq<char>, JsonView),
> {
    Seq::new(members.len(), |i: int| (members[i].0@, value_content(members[i].1)))
}

/// What a document that is taken apart says.
pub open spec fn opened_content(opened: OpenedValue) -> JsonView {
    match opened {
        OpenedValue::Null => JsonView::Null,
        OpenedValue::Bool(b) => JsonView::Bool(b),
        OpenedValue::Number(form) => JsonView::Number(form_view(form)),
        OpenedValue::Text(t) => JsonView::Text(t@),
        OpenedValue::Array(items) => JsonView::Array(value_items(items@)),
        OpenedValue::Object(members) => JsonView::Object(object_of(value_members(members@))),
    }
}

/// No name occurs twice.
pub open spec fn distinct_members(members: Seq<(Seq<char>, JsonView)>) -> bool {
    forall|i: int, j: int|
        0 <= i < j < members.len() ==> (#[trigger] members[i]).0 != (#[trigger] members[j]).0
}

/// A document that is taken apart holds a proper number, and no member twice.
pub open spec fn is_opened(opened: OpenedValue) -> bool {
    match opened {
        OpenedValue::Number(form) => is_number_form(form),
        OpenedValue::Object(members) => distinct_members(value_members(members@)),
        _ => true,
    }
}

/// Takes a `serde_json::Value` apart by its variants: the parts say what the whole says. An integer
/// below zero comes as a negative one, a number that is no integer as `serde_json` prints it, and
/// no member of an object comes twice.
#[verifier::external_body]
fn open_value(value: &serde_json::Value) -> (opened: OpenedValue)
    ensures
        opened_content(opened) == value_content(*value),
        is_opened(opened),
        opened matches OpenedValue::Number(NumberForm::Float(text)) ==> is_float_text(text@),
{
    match value.clone() {
        serde_json::Value::Null => OpenedValue::Null,
        serde_json::Value::Bool(b) => OpenedValue::Bool(b),
        serde_json::Value::Number(n) => OpenedValue::Number(match (n.as_u64(), n.as_i64()) {
            (Some(n), _) => NumberForm::Unsigned(n),
            (None, Some(n)) => NumberForm::Negative(n),
            (None, None) => NumberForm::Float(n.to_string()),
        }),
        serde_json::Value::String(t) => OpenedValue::Text(t),
        serde_json::Value::Array(items) => OpenedValue::Array(items),
        serde_json::Value::Object(members) => OpenedValue::Object(members.into_iter().collect()),
    }
}

/// Puts a `serde_json::Value` together: the whole says what its parts say. A printed number is read
/// back with `str::parse`, which gives the nearest number, and becomes a `serde_json::Number` by
/// `serde_json::Number::from_f64`; what `serde_json` prints for a number is nearest to that number
/// only, so the text stays the same.
#[verifier::external_body]
fn close_value(opened: OpenedValue) -> (value: serde_json::Value)
    requires
        is_opened(opened),
    ensures
        value_content(value) == opened_content(opened),
{
    match opened {
        OpenedValue::Null => serde_json::Value::Null,
        OpenedValue::Bool(b) => serde_json::Value::Bool(b),
        OpenedValue::Number(NumberForm::Unsigned(n)) => serde_json::Value::from(n),
        OpenedValue::Number(NumberForm::Negative(n)) => serde_json::Value::from(n),
        OpenedValue::Number(NumberForm::Float(t)) => {
            serde_json::Number::from_f64(t.parse().unwrap_or_default()).into()
        },
        OpenedValue::Text(t) => serde_json::Value::String(t),
        OpenedValue::Array(items) => serde_json::Value::Array(items),
        OpenedValue::Object(members) => serde_json::Value::Object(members.into_iter().collect()),
    }
}

/// The document of a `serde_json::Value`.
fn from_value(value: &serde_json::Value) -> (json: Json)
    ensures
        json@ == value_content(*value),
    decreases value_content(*value),
{
    let opened = open_value(value);
    let ghost content = value_content(*value);
    match opened {
        OpenedValue::Null => Json::Null,
        OpenedValue::Bool(b) => Json::Bool(b),
        OpenedValue::Number(form) => Json::Number(JsonNumber::from_form(form)),
        OpenedValue::Text(t) => Json::Text(t),
        OpenedValue::Array(items) => {
            let mut result: Vec<Json> = Vec::new();
            for k in 0..items.len()
                invariant
                    content == value_content(*value),
                    content == JsonView::Array(value_items(items@)),
                    result@.len() == k,
                    forall|i: int|
                        0 <= i < k ==> (#[trigger] result@[i])@ == value_content(items@[i]),
            {
                assert(decreases_to!(content => content->Array_0));
                assert(decreases_to!(content->Array_0 => content->Array_0[k as int]));
                let item = from_value(&items[k]);
                result.push(item);
            }
            proof {
                lemma_items_view(result@);
                assert(items_view(result@) =~= value_items(items@));
            }
            Json::Array(result)
        },
        OpenedValue::Object(members) => {
            let ghost listed = value_members(members@);
            let mut result: Vec<(String, Json)> = Vec::new();
            for k in 0..members.len()
                invariant
                    content == value_content(*value),
                    listed == value_members(members@),
                    distinct_members(listed),
                    content == JsonView::Object(object_of(listed)),
                    result@.len() == k,
                    forall|i: int| 0 <= i < k ==> (#[trigger] result@[i]).0@ == members@[i].0@,
                    forall|i: int|
                        0 <= i < k ==> (#[trigger] result@[i]).1@ == value_content(members@[i].1),
            {
                proof {
                    lemma_last_member(listed, k as int);
                    lemma_object_finite(listed);
                    assert(decreases_to!(content => content->Object_0));
                    assert(decreases_to!(content->Object_0 => content->Object_0[listed[k as int].0]));
                }
                let item = from_value(&members[k].1);
                result.push((members[k].0.clone(), item));
            }
            proof {
                lemma_members_view(result@);
                assert(member_views(result@) =~= listed);
            }
            Json::Object(result)
        },
    }
}

/// An object has finitely many members.
proof fn lemma_object_finite(members: Seq<(Seq<char>, JsonView)>)
    ensures
        object_of(members).dom().finite(),
    decreases members.len(),
{
    if members.len() > 0 {
        lemma_object_finite(members.drop_last());
    }
}

/// The `serde_json::Value` of a document.
fn to_value(json: &Json) -> (value: serde_json::Value)
    ensures
        value_content(value) == json@,
    decreases json, 0nat,
{
    let opened = match json {
        Json::Null => OpenedValue::Null,
        Json::Bool(b) => OpenedValue::Bool(*b),
        Json::Number(n) => OpenedValue::Number(n.to_form()),
        Json::Text(t) => OpenedValue::Text(t.clone()),
        Json::Array(items) => {
            let mut result: Vec<serde_json::Value> = Vec::new();
            for k in 0..items.len()
                invariant
                    *json == Json::Array(*items),
                    result@.len() == k,
                    forall|i: int|
                        0 <= i < k ==> value_content(#[trigger] result@[i]) == items@[i]@,
            {
                assert(decreases_to!(*json => json->Array_0));
                assert(decreases_to!(items@ => items@[k as int]));
                let item = to_value(&items[k]);
                result.push(item);
            }
            proof {
                lemma_items_view(items@);
                assert(value_items(result@) =~= items_view(items@));
            }
            OpenedValue::Array(result)
        },
        Json::Object(members) => {
            assert(decreases_to!(*json => json->Object_0));
            OpenedValue::Object(to_members(members))
        },
    };
    close_value(opened)
}

/// The members of an object, each once, as `serde_json` holds them.
fn to_members(members: &Vec<(String, Json)>) -> (result: Vec<(String, serde_json::Value)>)
    ensures
        distinct_members(value_members(result@)),
        object_of(value_members(result@)) == members_view(members@),
    decreases members, 1nat,
{
    let ghost whole = members_view(members@);
    let mut result: Vec<(String, serde_json::Value)> = Vec::new();
    // The places in `members` that the entries of `result` come from.
    let ghost mut places: Seq<int> = Seq::empty();
    for k in 0..members.len()
        invariant
            whole == members_view(members@),
            places.len() == result@.len(),
            forall|i: int|
                0 <= i < places.len() ==> 0 <= #[trigger] places[i] < k && result@[i].0@
                    == members@[places[i]].0@ && value_content(result@[i].1)
                    == members@[places[i]].1@ && is_last(members@, places[i]),
            forall|i: int, j: int| 0 <= i < j < places.len() ==> places[i] < places[j],
            forall|m: int| 0 <= m < k && #[trigger] is_last(members@, m) ==> places.contains(m),
    {
        let found = find_member(members, members[k].0.as_str());
        let ghost before = places;
        if is_last_place(members, k) {
            assert(decreases_to!(members => members@));
            assert(decreases_to!(members@ => members@[k as int]));
            assert(decreases_to!(members@[k as int] => members@[k as int].1));
            let item = to_value(&members[k].1);
            result.push((members[k].0.clone(), item));
            proof {
                places = places.push(k as int);
                assert forall|m: int| 0 <= m < k + 1 && #[trigger] is_last(
                    members@,
                    m,
                ) implies places.contains(m) by {
                    if m == k {
                        assert(places[places.len() - 1] == k);
                    } else {
                        let i = choose|i: int| 0 <= i < before.len() && before[i] == m;
                        assert(places[i] == m);
                    }
                }
            }
        }
    }
    proof {
        lemma_last_members(members@, value_members(result@), places);
    }
    result
}

/// The member at a place is the last of its name.
spec fn is_last(members: Seq<(String, Json)>, place: int) -> bool {
    forall|j: int| place < j < members.len() ==> (#[trigger] members[j]).0@ != members[place].0@
}

/// Whether the member at a place is the last of its name.
fn is_last_place(members: &Vec<(String, Json)>, place: usize) -> (r: bool)
    requires
        place < members@.len(),
    ensures
        r == is_last(members@, place as int),
{
    for j in place + 1..members.len()
        invariant
            place < members@.len(),
            forall|i: int| place < i < j ==> (#[trigger] members@[i]).0@ != members@[place as int].0@,
    {
        if same(members[j].0.as_str(), members[place].0.as_str()) {
            return false;
        }
    }
    true
}

/// The last members of each name stand for the whole object.
proof fn lemma_last_members(
    members: Seq<(String, Json)>,
    kept: Seq<(Seq<char>, JsonView)>,
    places: Seq<int>,
)
    requires
        places.len() == kept.len(),
        forall|i: int|
            0 <= i < places.len() ==> 0 <= #[trigger] places[i] < members.len() && kept[i].0
                == members[places[i]].0@ && kept[i].1 == members[places[i]].1@ && is_last(
                members,
                places[i],
            ),
        forall|i: int, j: int| 0 <= i < j < places.len() ==> places[i] < places[j],
        forall|m: int|
            0 <= m < members.len() && #[trigger] is_last(members, m) ==> places.contains(m),
    ensures
        distinct_members(kept),
        object_of(kept) == members_view(members),
{
    let views = member_views(members);
    lemma_members_view(members);
    assert forall|i: int, j: int| 0 <= i < j < kept.len() implies (#[trigger] kept[i]).0 != (
    #[trigger] kept[j]).0 by {
        assert(places[i] < places[j]);
        assert(is_last(members, places[i]));
    }
    assert forall|name: Seq<char>| object_of(kept).contains_key(name) implies #[trigger] object_of(
        views,
    ).contains_key(name) && object_of(views)[name] == object_of(kept)[name] by {
        lemma_member_names(kept, name);
        let i = choose|i: int| 0 <= i < kept.len() && (#[trigger] kept[i]).0 == name;
        lemma_last_member(kept, i);
        assert forall|j: int| places[i] < j < views.len() implies (#[trigger] views[j]).0
            != views[places[i]].0 by {
            assert(members[j].0@ != members[places[i]].0@);
        }
        lemma_last_member(views, places[i]);
    }
    assert forall|name: Seq<char>| object_of(views).contains_key(name) implies #[trigger] object_of(
        kept,
    ).contains_key(name) by {
        lemma_member_names(views, name);
        let i = choose|i: int| 0 <= i < views.len() && (#[trigger] views[i]).0 == name;
        assert(members[i].0@ == name);
        let m = lemma_last_of_name(members, i);
        assert(places.contains(m));
        let p = choose|p: int| 0 <= p < places.len() && places[p] == m;
        assert(kept[p].0 == name);
        lemma_member_names(kept, name);
    }
    assert(object_of(kept).dom() =~= object_of(views).dom());
    assert(object_of(kept) =~= object_of(views));
}

/// Every name has a last member.
proof fn lemma_last_of_name(members: Seq<(String, Json)>, i: int) -> (m: int)
    requires
        0 <= i < members.len(),
    ensures
        i <= m < members.len(),
        members[m].0@ == members[i].0@,
        is_last(members, m),
    decreases members.len() - i,
{
    if is_last(members, i) {
        i
    } else {
        let j = choose|j: int| i < j < members.len() && (#[trigger] members[j]).0@ == members[i].0@;
        lemma_last_of_name(members, j)
    }
}

/// The bytes of a document of `serde_json`.
pub uninterp spec fn json_bytes(document: JsonView) -> Option<Seq<u8>>;

/// The document that bytes hold.
pub uninterp spec fn parsed_json(bytes: Seq<u8>) -> Option<JsonView>;

/// Whether a schema compiles, with a limit on the backtracking of its patterns.
pub uninterp spec fn schema_compiles(schema: JsonView, backtrack_limit: nat) -> bool;

/// Whether a schema that compiles accepts a document.
pub uninterp spec fn schema_accepts(
    schema: JsonView,
    backtrack_limit: nat,
    document: JsonView,
) -> bool;

/// The bytes, where there are any.
pub open spec fn bytes_of(bytes: Option<Vec<u8>>) -> Option<Seq<u8>> {
    match bytes {
        Some(b) => Some(b@),
        None => None,
    }
}

/// Calls `serde_json::to_vec`; what it writes is named [`json_bytes`] of what the document says.
#[verifier::external_body]
fn write_value(value: &serde_json::Value) -> (bytes: Option<Vec<u8>>)
    ensures
        bytes_of(bytes) == json_bytes(value_content(*value)),
{
    serde_json::to_vec(value).ok()
}

/// Calls `serde_json::from_slice`; what it reads is named [`parsed_json`] of the bytes.
#[verifier::external_body]
fn read_value(bytes: &[u8]) -> (value: Option<serde_json::Value>)
    ensures
        value is Some == parsed_json(bytes@) is Some,
        value matches Some(v) ==> parsed_json(bytes@) == Some(value_content(v)),
{
    serde_json::from_slice(bytes).ok()
}

/// Calls `jsonschema::options().offline()` with the given backtracking limit and then `build`;
/// whether that succeeds is named [`schema_compiles`]. No reference is resolved outside the schema.
#[verifier::external_body]
fn build_schema(schema: &serde_json::Value, backtrack_limit: usize) -> (compiles: bool)
    ensures
        compiles == schema_compiles(value_content(*schema), backtrack_limit as nat),
{
    jsonschema::options()
        .offline()
        .with_pattern_options(
            jsonschema::PatternOptions::fancy_regex().backtrack_limit(backtrack_limit),
        )
        .build(schema)
        .is_ok()
}

/// Builds the validator as [`build_schema`] does and calls `jsonschema::Validator::is_valid`;
/// what it says is named [`schema_accepts`], and a schema that does not compile accepts nothing.
#[verifier::external_body]
fn check_schema(
    schema: &serde_json::Value,
    backtrack_limit: usize,
    document: &serde_json::Value,
) -> (accepted: bool)
    ensures
        accepted == (schema_compiles(value_content(*schema), backtrack_limit as nat)
            && schema_accepts(
            value_content(*schema),
            backtrack_limit as nat,
            value_content(*document),
        )),
{
    jsonschema::options()
        .offline()
        .with_pattern_options(
            jsonschema::PatternOptions::fancy_regex().backtrack_limit(backtrack_limit),
        )
        .build(schema)
        .is_ok_and(|validator| validator.is_valid(document))
}

/// The bytes of a document.
pub fn encode(json: &Json) -> (bytes: Option<Vec<u8>>)
    ensures
        bytes_of(bytes) == json_bytes(json@),
{
    write_value(&to_value(json))
}

/// A document fits when it can be written in at most `maximum` bytes.
pub open spec fn fits(document: JsonView, maximum: nat) -> bool {
    match json_bytes(document) {
        Some(bytes) => bytes.len() <= maximum,
        None => false,
    }
}

/// Whether a document can be written in at most `maximum` bytes.
pub fn within(json: &Json, maximum: usize) -> (r: bool)
    ensures
        r == fits(json@, maximum as nat),
{
    match encode(json) {
        Some(bytes) => bytes.len() <= maximum,
        None => false,
    }
}

/// The document that bytes hold, where they hold one.
pub fn decode(bytes: &[u8]) -> (json: Option<Json>)
    ensures
        json is Some == parsed_json(bytes@) is Some,
        json matches Some(j) ==> parsed_json(bytes@) == Some(j@),
{
    match read_value(bytes) {
        Some(value) => Some(from_value(&value)),
        None => None,
    }
}

/// Whether a schema compiles.
pub fn compiles(schema: &Json, backtrack_limit: usize) -> (r: bool)
    ensures
        r == schema_compiles(schema@, backtrack_limit as nat),
{
    build_schema(&to_value(schema), backtrack_limit)
}

/// Whether a schema compiles and accepts a document.
pub fn accepts(schema: &Json, backtrack_limit: usize, document: &Json) -> (r: bool)
    ensures
        r == (schema_compiles(schema@, backtrack_limit as nat) && schema_accepts(
            schema@,
            backtrack_limit as nat,
            document@,
        )),
{
    check_schema(&to_value(schema), backtrack_limit, &to_value(document))
}

/// Numbers are read as the integers that they are: an integer that is not negative as itself, a
/// negative one only as a signed integer, and a number with a fraction as none.
pub proof fn numbers_as_integers(number: NumberView)
    ensures
        unsigned_of(number) matches Some(n) ==> number == NumberView::Unsigned(n),
        number matches NumberView::Unsigned(n) ==> unsigned_of(number) == Some(n),
        integer_of(number) matches Some(n) ==> (n < 0 || number == NumberView::Unsigned(n as u64)
            || number is Negative),
        number matches NumberView::Negative(n) ==> integer_of(number) == Some(n)
            && unsigned_of(number) is None,
        number matches NumberView::Unsigned(n) ==> (integer_of(number) is Some <==> n
            <= 0x7fff_ffff_ffff_ffff) && (integer_of(number) matches Some(m) ==> m == n),
        number is Float ==> integer_of(number) is None && unsigned_of(number) is None,
{
}

/// Documents are equal to themselves, and equal either way round.
pub proof fn equal_either_way(a: JsonView, b: JsonView)
    ensures
        same_document(a, a),
        same_document(a, b) <==> same_document(b, a),
    decreases a,
{
    match a {
        JsonView::Array(x) => {
            assert forall|i: int| 0 <= i < x.len() implies same_document(#[trigger] x[i], x[i]) by {
                equal_either_way(x[i], x[i]);
            }
            if let JsonView::Array(y) = b {
                if x.len() == y.len() {
                    assert forall|i: int| 0 <= i < x.len() implies (same_document(x[i], y[i])
                        <==> same_document(#[trigger] y[i], x[i])) by {
                        equal_either_way(x[i], y[i]);
                    }
                    if same_document(a, b) {
                        assert forall|i: int| 0 <= i < y.len() implies same_document(
                            #[trigger] y[i],
                            x[i],
                        ) by {
                            assert(same_document(x[i], y[i]));
                        }
                    }
                    if same_document(b, a) {
                        assert forall|i: int| 0 <= i < x.len() implies same_document(
                            #[trigger] x[i],
                            y[i],
                        ) by {
                            assert(same_document(y[i], x[i]));
                        }
                    }
                }
            }
        },
        JsonView::Object(x) => {
            assert forall|name: Seq<char>| #[trigger] x.contains_key(name) implies same_document(
                x[name],
                x[name],
            ) by {
                equal_either_way(x[name], x[name]);
            }
            if let JsonView::Object(y) = b {
                if x.dom() == y.dom() {
                    assert forall|name: Seq<char>| #[trigger] x.contains_key(name) implies (
                    same_document(x[name], y[name]) <==> same_document(y[name], x[name])) by {
                        equal_either_way(x[name], y[name]);
                    }
                    if same_document(a, b) {
                        assert forall|name: Seq<char>| #[trigger] y.contains_key(name) implies
                            same_document(y[name], x[name]) by {
                            assert(x.dom().contains(name));
                            assert(x.contains_key(name));
                        }
                    }
                    if same_document(b, a) {
                        assert forall|name: Seq<char>| #[trigger] x.contains_key(name) implies
                            same_document(x[name], y[name]) by {
                            assert(y.dom().contains(name));
                            assert(y.contains_key(name));
                        }
                    }
                }
            }
        },
        _ => {},
    }
}

/// Documents of different kinds differ, texts and truth values are equal only to themselves, lists
/// differ where an item does, and objects where a member does or is missing.
pub proof fn different_where_a_part_is(a: JsonView, b: JsonView, i: int, name: Seq<char>)
    requires
        same_document(a, b),
    ensures
        a is Text || a is Bool || a is Null ==> a == b,
        a is Array <==> b is Array,
        a is Object <==> b is Object,
        a is Number <==> b is Number,
        a matches JsonView::Array(x) ==> (b matches JsonView::Array(y) && x.len() == y.len() && (0 <= i
            < x.len() ==> same_document(x[i], y[i]))),
        a matches JsonView::Object(x) ==> (b matches JsonView::Object(y) && (x.contains_key(name)
            <==> y.contains_key(name)) && (x.contains_key(name) ==> same_document(x[name], y[name]))),
        a matches JsonView::Number(NumberView::Unsigned(n)) ==> a == b,
        a matches JsonView::Number(NumberView::Negative(n)) ==> a == b,
{
    if let (JsonView::Object(x), JsonView::Object(y)) = (a, b) {
        assert(x.dom().contains(name) == y.dom().contains(name));
    }
}

/// A member is found in an object that has it, and nowhere else.
pub proof fn members_by_name(document: JsonView, name: Seq<char>)
    ensures
        member(document, name) is Some <==> (document matches JsonView::Object(members)
            && members.contains_key(name)),
        member(document, name) matches Some(value) ==> (document matches JsonView::Object(members)
            && members[name] == value),
{
}

/// A document that fits within a limit fits within every higher one.
pub proof fn fits_within_more(document: JsonView, maximum: nat, more: nat)
    requires
        maximum <= more,
    ensures
        fits(document, maximum) ==> fits(document, more),
        fits(document, maximum) <==> (json_bytes(document) matches Some(bytes) && bytes.len()
            <= maximum),
{
}

} // verus!
