//! To and from the values of `serde_json`, and the text that it writes.
use vstd::prelude::*;
use crate::json::{fields_view, items_view, Json, JsonView};

verus! {

/// `serde_json::Value`: a JSON value. [`value_view`] is what it holds.
#[verifier::external_type_specification]
#[verifier::external_body]
pub struct ExValue(serde_json::Value);

/// `serde_json::Map`: the fields of an object. [`map_view`] is what it holds.
#[verifier::external_type_specification]
#[verifier::external_body]
#[verifier::reject_recursive_types(K)]
#[verifier::reject_recursive_types(V)]
pub struct ExMap<K, V>(serde_json::Map<K, V>);

/// What a `serde_json::Value` holds.
pub uninterp spec fn value_view(value: serde_json::Value) -> JsonView;

/// The fields that a `serde_json::Map` holds, each with what its value holds.
pub uninterp spec fn map_view(fields: serde_json::Map<String, serde_json::Value>) -> Map<
    Seq<char>,
    JsonView,
>;

/// The compact text that `serde_json` writes for a value that holds `json`.
pub uninterp spec fn json_text(json: JsonView) -> Seq<char>;

/// What each value of a list holds.
pub open spec fn values_view(values: Seq<serde_json::Value>) -> Seq<JsonView> {
    values.map_values(|value: serde_json::Value| value_view(value))
}

/// The fields of an object without any.
pub open spec fn no_fields() -> Map<Seq<char>, JsonView> {
    Map::empty()
}

/// Whether a key is made of small letters only, none of which needs an escape.
pub open spec fn plain_key(key: Seq<char>) -> bool {
    forall|i: int| 0 <= i < key.len() ==> 'a' <= #[trigger] key[i] <= 'z'
}

/// The text of an object whose one field is a truth value.
pub open spec fn flag_text(key: Seq<char>, flag: bool) -> Seq<char> {
    "{\""@ + key + "\":"@ + (if flag {
        "true"@
    } else {
        "false"@
    }) + "}"@
}

/// One layer of a JSON value whose parts are values of `serde_json` already.
pub(crate) enum Layer {
    Null,
    Bool(bool),
    Number(serde_json::Number),
    Text(String),
    Array(Vec<serde_json::Value>),
    Object(serde_json::Map<String, serde_json::Value>),
}

impl Layer {
    /// What the layer and its parts hold together.
    pub(crate) open spec fn model(self) -> JsonView {
        match self {
            Layer::Null => JsonView::Null,
            Layer::Bool(flag) => JsonView::Bool(flag),
            Layer::Number(number) => JsonView::Number(number),
            Layer::Text(text) => JsonView::Text(text@),
            Layer::Array(values) => JsonView::Array(values_view(values@)),
            Layer::Object(fields) => JsonView::Object(map_view(fields)),
        }
    }
}

/// `serde_json::Number::clone`: the copy is the number.
pub assume_specification [<serde_json::Number as Clone>::clone](
    number: &serde_json::Number,
) -> (copy: serde_json::Number)
    ensures
        copy == *number,
;

/// The variants of `serde_json::Value`: each holds what it is made from.
#[verifier::external_body]
fn make_value(layer: Layer) -> (value: serde_json::Value)
    ensures
        value_view(value) == layer.model(),
{
    match layer {
        Layer::Null => serde_json::Value::Null,
        Layer::Bool(flag) => serde_json::Value::Bool(flag),
        Layer::Number(number) => serde_json::Value::Number(number),
        Layer::Text(text) => serde_json::Value::String(text),
        Layer::Array(values) => serde_json::Value::Array(values),
        Layer::Object(fields) => serde_json::Value::Object(fields),
    }
}

/// The variants of `serde_json::Value` again: taking one apart gives what it holds.
#[verifier::external_body]
fn open_value(value: serde_json::Value) -> (layer: Layer)
    ensures
        layer.model() == value_view(value),
{
    match value {
        serde_json::Value::Null => Layer::Null,
        serde_json::Value::Bool(flag) => Layer::Bool(flag),
        serde_json::Value::Number(number) => Layer::Number(number),
        serde_json::Value::String(text) => Layer::Text(text),
        serde_json::Value::Array(values) => Layer::Array(values),
        serde_json::Value::Object(fields) => Layer::Object(fields),
    }
}

/// `serde_json::Map::new`: a map without fields.
#[verifier::external_body]
fn new_map() -> (fields: serde_json::Map<String, serde_json::Value>)
    ensures
        map_view(fields) == no_fields(),
{
    serde_json::Map::new()
}

/// `serde_json::Map::insert`: the key gets the value, in place of one that it had.
/// Which value it had is not stated.
#[verifier::external_body]
fn insert_field(
    fields: &mut serde_json::Map<String, serde_json::Value>,
    key: String,
    value: serde_json::Value,
)
    ensures
        map_view(*final(fields)) == map_view(*old(fields)).insert(key@, value_view(value)),
{
    fields.insert(key, value);
}

/// `serde_json::Map::into_iter`: every field comes once, with its value. In which
/// order they come is not stated.
#[verifier::external_body]
fn map_fields(fields: serde_json::Map<String, serde_json::Value>) -> (listed: Vec<
    (String, serde_json::Value),
>)
    ensures
        distinct_keys(listed@),
        entries_view(listed@) == map_view(fields),
{
    fields.into_iter().collect()
}

/// `serde_json::Value::to_string`: the text depends on what the value holds alone.
/// Fields come in the order of their keys, in which `serde_json::Map` keeps them.
/// Of the text itself only the case that this crate writes by itself is stated.
#[verifier::external_body]
fn value_text(value: &serde_json::Value) -> (text: String)
    ensures
        text@ == json_text(value_view(*value)),
        forall|key: Seq<char>, flag: bool|
            plain_key(key) && value_view(*value) == JsonView::Object(
                no_fields().insert(key, JsonView::Bool(flag)),
            ) ==> text@ == #[trigger] flag_text(key, flag),
{
    value.to_string()
}

/// The map that a list of fields stands for: each field is inserted in turn.
pub open spec fn entries_view(entries: Seq<(String, serde_json::Value)>) -> Map<
    Seq<char>,
    JsonView,
>
    decreases entries.len(),
{
    if entries.len() == 0 {
        Map::empty()
    } else {
        entries_view(entries.drop_last()).insert(entries.last().0@, value_view(entries.last().1))
    }
}

/// Whether no two fields of a list have the same key.
pub open spec fn distinct_keys(entries: Seq<(String, serde_json::Value)>) -> bool {
    forall|i: int, j: int|
        0 <= i < j < entries.len() ==> (#[trigger] entries[i]).0@ != (#[trigger] entries[j]).0@
}

/// In a list whose keys are distinct every field counts.
proof fn lemma_entry(entries: Seq<(String, serde_json::Value)>, at: int)
    requires
        distinct_keys(entries),
        0 <= at < entries.len(),
    ensures
        entries_view(entries).contains_key(entries[at].0@),
        entries_view(entries)[entries[at].0@] == value_view(entries[at].1),
    decreases entries.len(),
{
    if at < entries.len() - 1 {
        lemma_entry(entries.drop_last(), at);
    }
}

/// A list of values shows what each of them holds, in its place.
pub proof fn law_a_list_of_values_shows_each(values: Seq<serde_json::Value>)
    ensures
        values_view(values).len() == values.len(),
        forall|i: int|
            0 <= i < values.len() ==> #[trigger] values_view(values)[i] == value_view(values[i]),
{
}

/// A list of fields whose keys are distinct shows exactly those keys, each with what
/// its value holds.
pub proof fn law_distinct_fields_all_count(entries: Seq<(String, serde_json::Value)>)
    requires
        forall|i: int, j: int|
            0 <= i < j < entries.len() ==> (#[trigger] entries[i]).0@ != (#[trigger] entries[j]).0@,
    ensures
        distinct_keys(entries),
        forall|i: int|
            0 <= i < entries.len() ==> entries_view(entries).contains_key(
                (#[trigger] entries[i]).0@,
            ) && entries_view(entries)[entries[i].0@] == value_view(entries[i].1),
        forall|key: Seq<char>| #[trigger]
            entries_view(entries).contains_key(key) ==> exists|i: int|
                0 <= i < entries.len() && (#[trigger] entries[i]).0@ == key,
    decreases entries.len(),
{
    assert forall|i: int| 0 <= i < entries.len() implies entries_view(entries).contains_key(
        (#[trigger] entries[i]).0@,
    ) && entries_view(entries)[entries[i].0@] == value_view(entries[i].1) by {
        lemma_entry(entries, i);
    }
    if entries.len() > 0 {
        let rest = entries.drop_last();
        law_distinct_fields_all_count(rest);
        assert forall|key: Seq<char>| #[trigger]
            entries_view(entries).contains_key(key) implies exists|i: int|
            0 <= i < entries.len() && (#[trigger] entries[i]).0@ == key by {
            if key == entries.last().0@ {
                assert(entries[entries.len() - 1].0@ == key);
            } else {
                assert(entries_view(rest).contains_key(key));
                let i = choose|i: int| 0 <= i < rest.len() && (#[trigger] rest[i]).0@ == key;
                assert(entries[i].0@ == key);
            }
        }
    }
}

/// A list of fields stands for a finite map.
proof fn lemma_finite(entries: Seq<(String, serde_json::Value)>)
    ensures
        entries_view(entries).dom().finite(),
    decreases entries.len(),
{
    if entries.len() > 0 {
        lemma_finite(entries.drop_last());
    }
}

impl Json {
    /// The value of `serde_json` that holds the same.
    pub fn to_value(&self) -> (value: serde_json::Value)
        ensures
            value_view(value) == self@,
        decreases self,
    {
        match self {
            Json::Null => make_value(Layer::Null),
            Json::Bool(flag) => make_value(Layer::Bool(*flag)),
            Json::Number(number) => make_value(Layer::Number(number.clone())),
            Json::Text(text) => make_value(Layer::Text(text.clone())),
            Json::Array(items) => {
                let mut values: Vec<serde_json::Value> = Vec::new();
                let mut i: usize = 0;
                while i < items.len()
                    invariant
                        *self == Json::Array(*items),
                        i <= items.len(),
                        values.len() == i,
                        forall|k: int| 0 <= k < i ==> value_view(#[trigger] values[k]) == items[k]@,
                    decreases items.len() - i,
                {
                    assert(decreases_to!(*self => self->Array_0));
                    assert(decreases_to!(*items => items@));
                    assert(decreases_to!(items@ => items@[i as int]));
                    values.push(items[i].to_value());
                    i = i + 1;
                }
                assert(values_view(values@) =~= items_view(items@));
                make_value(Layer::Array(values))
            },
            Json::Object(fields) => {
                let mut map = new_map();
                let mut i: usize = 0;
                while i < fields.len()
                    invariant
                        *self == Json::Object(*fields),
                        i <= fields.len(),
                        map_view(map) == fields_view(fields@.take(i as int)),
                    decreases fields.len() - i,
                {
                    assert(decreases_to!(*self => self->Object_0));
                    assert(decreases_to!(*fields => fields@));
                    assert(decreases_to!(fields@ => fields@[i as int]));
                    assert(decreases_to!(fields@[i as int] => fields@[i as int].1));
                    insert_field(&mut map, fields[i].0.clone(), fields[i].1.to_value());
                    assert(fields@.take(i + 1).drop_last() =~= fields@.take(i as int));
                    i = i + 1;
                }
                assert(fields@.take(i as int) =~= fields@);
                make_value(Layer::Object(map))
            },
        }
    }

    /// What a value of `serde_json` holds.
    pub fn from_value(value: serde_json::Value) -> (json: Json)
        ensures
            json@ == value_view(value),
        decreases value_view(value),
    {
        match open_value(value) {
            Layer::Null => Json::Null,
            Layer::Bool(flag) => Json::Bool(flag),
            Layer::Number(number) => Json::Number(number),
            Layer::Text(text) => Json::Text(text),
            Layer::Array(values) => {
                let ghost parts = values@;
                let mut items: Vec<Json> = Vec::new();
                for part in iter: values
                    invariant
                        iter.seq() == parts,
                        value_view(value) == JsonView::Array(values_view(parts)),
                        items.len() == iter.index(),
                        forall|k: int|
                            0 <= k < items.len() ==> (#[trigger] items[k])@ == value_view(parts[k]),
                {
                    let ghost at: int = iter.index() as int;
                    assert(part == parts[at]);
                    assert(decreases_to!(value_view(value) => value_view(value)->Array_0));
                    assert(decreases_to!(values_view(parts) => values_view(parts)[at]));
                    items.push(Json::from_value(part));
                }
                assert(items_view(items@) =~= values_view(parts));
                Json::Array(items)
            },
            Layer::Object(map) => {
                let entries = map_fields(map);
                let ghost parts = entries@;
                let mut fields: Vec<(String, Json)> = Vec::new();
                for entry in iter: entries
                    invariant
                        iter.seq() == parts,
                        distinct_keys(parts),
                        value_view(value) == JsonView::Object(entries_view(parts)),
                        fields_view(fields@) == entries_view(parts.take(iter.index() as int)),
                {
                    let ghost before = fields@;
                    let ghost at: int = iter.index() as int;
                    assert(entry == parts[at]);
                    let (key, part) = entry;
                    proof {
                        lemma_entry(parts, at);
                        lemma_finite(parts);
                    }
                    assert(decreases_to!(value_view(value) => value_view(value)->Object_0));
                    assert(decreases_to!(entries_view(parts) => entries_view(parts)[parts[at].0@]));
                    fields.push((key, Json::from_value(part)));
                    assert(fields@.drop_last() =~= before);
                    assert(parts.take(at + 1).drop_last() =~= parts.take(at));
                }
                assert(parts.take(parts.len() as int) =~= parts);
                Json::Object(fields)
            },
        }
    }

    /// The compact text of this value.
    pub fn to_text(&self) -> (text: String)
        ensures
            text@ == json_text(self@),
            forall|key: Seq<char>, flag: bool|
                plain_key(key) && self@ == JsonView::Object(
                    no_fields().insert(key, JsonView::Bool(flag)),
                ) ==> text@ == #[trigger] flag_text(key, flag),
    {
        value_text(&self.to_value())
    }
}

} // verus!
