//! JSON values: the type that the rest of the crate works on, its model, and
//! the lookups that the crate needs.
use vstd::prelude::*;

verus! {

/// `serde_json::Number`: a JSON number. Nothing here looks inside one. It is
/// carried from where it was read to where it is written.
#[verifier::external_type_specification]
#[verifier::external_body]
pub struct ExNumber(serde_json::Number);

/// A JSON value.
///
/// An object lists its fields. Where a key occurs twice the later field is the
/// one that counts, as it is when the fields are put into a map one by one.
#[derive(Debug, PartialEq, Eq)]
pub enum Json {
    Null,
    Bool(bool),
    Number(serde_json::Number),
    Text(String),
    Array(Vec<Json>),
    Object(Vec<(String, Json)>),
}

/// What a [`Json`] is: an object is a map from keys to values, in no order.
#[verifier::ext_equal]
pub enum JsonView {
    Null,
    Bool(bool),
    Number(serde_json::Number),
    Text(Seq<char>),
    Array(Seq<JsonView>),
    Object(Map<Seq<char>, JsonView>),
}

/// The model of one value.
pub open spec fn json_view(json: Json) -> JsonView
    decreases json,
{
    match json {
        Json::Null => JsonView::Null,
        Json::Bool(value) => JsonView::Bool(value),
        Json::Number(number) => JsonView::Number(number),
        Json::Text(text) => JsonView::Text(text@),
        Json::Array(items) => JsonView::Array(items_view(items@)),
        Json::Object(fields) => JsonView::Object(fields_view(fields@)),
    }
}

/// The models of a list of values, one by one.
pub open spec fn items_view(items: Seq<Json>) -> Seq<JsonView>
    decreases items,
{
    Seq::new(
        items.len(),
        |i: int|
            if 0 <= i < items.len() {
                json_view(items[i])
            } else {
                JsonView::Null
            },
    )
}

/// The map that a list of fields stands for: each field is inserted in turn.
pub open spec fn fields_view(fields: Seq<(String, Json)>) -> Map<Seq<char>, JsonView>
    decreases fields,
{
    if fields.len() == 0 {
        Map::empty()
    } else {
        fields_view(fields.drop_last()).insert(fields.last().0@, json_view(fields.last().1))
    }
}

impl View for Json {
    type V = JsonView;

    open spec fn view(&self) -> JsonView {
        json_view(*self)
    }
}

impl JsonView {
    /// Whether this is an object with a field under `key`.
    pub open spec fn has(self, key: Seq<char>) -> bool {
        self is Object && self->Object_0.contains_key(key)
    }

    /// The value under `key`; null where there is none.
    pub open spec fn field(self, key: Seq<char>) -> JsonView {
        if self.has(key) {
            self->Object_0[key]
        } else {
            JsonView::Null
        }
    }

    /// The text of a string value.
    pub open spec fn text(self) -> Option<Seq<char>> {
        match self {
            JsonView::Text(text) => Some(text),
            _ => None,
        }
    }

    /// This object with `value` under `key`; null counts as the empty object.
    pub open spec fn with(self, key: Seq<char>, value: JsonView) -> JsonView {
        match self {
            JsonView::Object(fields) => JsonView::Object(fields.insert(key, value)),
            _ => JsonView::Object(Map::empty().insert(key, value)),
        }
    }
}

/// `str`'s `==`: two strings are equal when they hold the same characters.
#[verifier::external_body]
pub(crate) fn same_text(left: &str, right: &str) -> (same: bool)
    ensures
        same == (left@ == right@),
{
    left == right
}

/// A key that no field has is not in the map.
pub(crate) proof fn lemma_absent(fields: Seq<(String, Json)>, key: Seq<char>)
    requires
        forall|i: int| 0 <= i < fields.len() ==> (#[trigger] fields[i]).0@ != key,
    ensures
        !fields_view(fields).contains_key(key),
    decreases fields.len(),
{
    if fields.len() > 0 {
        lemma_absent(fields.drop_last(), key);
    }
}

/// The last field with a key gives the value, and replacing it replaces the value.
pub(crate) proof fn lemma_last(fields: Seq<(String, Json)>, at: int, field: (String, Json))
    requires
        0 <= at < fields.len(),
        field.0@ == fields[at].0@,
        forall|i: int| at < i < fields.len() ==> (#[trigger] fields[i]).0@ != fields[at].0@,
    ensures
        fields_view(fields).contains_key(fields[at].0@),
        fields_view(fields)[fields[at].0@] == fields[at].1@,
        fields_view(fields.update(at, field)) == fields_view(fields).insert(field.0@, field.1@),
    decreases fields.len(),
{
    let rest = fields.drop_last();
    let changed = fields.update(at, field);
    if at == fields.len() - 1 {
        assert(changed.drop_last() =~= rest);
    } else {
        lemma_last(rest, at, field);
        assert(changed.drop_last() =~= rest.update(at, field));
    }
    assert(fields_view(changed) =~= fields_view(fields).insert(field.0@, field.1@));
}

/// Where the field that counts for `key` stands; past the end if there is none.
pub(crate) fn find_field(fields: &Vec<(String, Json)>, key: &str) -> (at: usize)
    ensures
        at <= fields.len(),
        at < fields.len() ==> fields[at as int].0@ == key@,
        forall|i: int|
            (if at < fields.len() {
                at as int
            } else {
                -1
            }) < i < fields.len() ==> (#[trigger] fields[i]).0@ != key@,
{
    let mut at: usize = fields.len();
    while at > 0
        invariant
            at <= fields.len(),
            forall|i: int| at <= i < fields.len() ==> (#[trigger] fields[i]).0@ != key@,
        decreases at,
    {
        at = at - 1;
        if same_text(fields[at].0.as_str(), key) {
            return at;
        }
    }
    fields.len()
}

impl Json {
    /// The value under `key`, where this is an object that has one.
    pub fn get(&self, key: &str) -> (found: Option<&Json>)
        ensures
            match found {
                Some(value) => self@.has(key@) && value@ == self@.field(key@),
                None => !self@.has(key@),
            },
            found is Some <==> self@ is Object && self@->Object_0.contains_key(key@),
            found is Some ==> found->0@ == self@->Object_0[key@],
    {
        match self {
            Json::Object(fields) => {
                let at = find_field(fields, key);
                if at < fields.len() {
                    proof {
                        lemma_last(fields@, at as int, fields[at as int]);
                    }
                    Some(&fields[at].1)
                } else {
                    proof {
                        lemma_absent(fields@, key@);
                    }
                    None
                }
            },
            _ => None,
        }
    }

    /// The text of a string value.
    pub fn as_str(&self) -> (text: Option<&str>)
        ensures
            match text {
                Some(text) => self@.text() == Some(text@),
                None => self@.text() is None,
            },
            text is Some <==> self@ is Text,
            text is Some ==> self@ == JsonView::Text(text->0@),
    {
        match self {
            Json::Text(text) => Some(text.as_str()),
            _ => None,
        }
    }
}

} // verus!
