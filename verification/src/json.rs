//! The JSON side of the library: values and objects of the `serde_json`
//! crate, what they hold, and the few calls into the crate that the builder
//! makes.
//!
//! The functions of this file are not proved. Each makes one call into
//! `serde_json`, and its contract says what the value that comes back
//! holds.

use vstd::prelude::*;
use serde_json::Value;

verus! {

/// What a JSON value holds, as far as this library builds such values:
/// strings, arrays, and objects with their entries in order. `Other` stands
/// for null, booleans and numbers.
pub enum Json {
    Text(Seq<char>),
    Array(Seq<Json>),
    Object(Seq<(Seq<char>, Json)>),
    Other,
}

/// `serde_json::Value`, any JSON value.
#[verifier::external_type_specification]
#[verifier::external_body]
pub struct ExValue(Value);

/// `serde_json::Map`, the entries of a JSON object. The library builds the
/// crate with its feature `preserve_order`, under which a map keeps its
/// entries in the order in which their keys were first inserted.
#[verifier::external_type_specification]
#[verifier::external_body]
#[verifier::reject_recursive_types(K)]
#[verifier::reject_recursive_types(V)]
pub struct ExMap<K, V>(serde_json::Map<K, V>);

/// What `value` holds.
pub uninterp spec fn json_of(value: Value) -> Json;

/// The entries of `object`, each a key with what its value holds, in the
/// order in which the map keeps them.
pub uninterp spec fn entries_of(object: serde_json::Map<String, Value>) -> Seq<(Seq<char>, Json)>;

/// `entries` after `key` was given `value`: the first entry with that key
/// has its value replaced and stays in its place; where there is none, the
/// new entry comes last.
pub open spec fn put(entries: Seq<(Seq<char>, Json)>, key: Seq<char>, value: Json) -> Seq<
    (Seq<char>, Json),
>
    decreases entries.len(),
{
    if entries.len() == 0 {
        seq![(key, value)]
    } else if entries.first().0 == key {
        seq![(key, value)] + entries.drop_first()
    } else {
        seq![entries.first()] + put(entries.drop_first(), key, value)
    }
}

/// Some entry of `entries` has `key`.
pub open spec fn has_key(entries: Seq<(Seq<char>, Json)>, key: Seq<char>) -> bool {
    exists|j: int| 0 <= j < entries.len() && (#[trigger] entries[j]).0 == key
}

/// The keys of `entries`, in the order of the entries.
pub open spec fn keys_of(entries: Seq<(Seq<char>, Json)>) -> Seq<Seq<char>> {
    entries.map_values(|entry: (Seq<char>, Json)| entry.0)
}

/// No two entries of `entries` have the same key.
pub open spec fn keys_distinct(entries: Seq<(Seq<char>, Json)>) -> bool {
    forall|i: int, j: int|
        0 <= i < j < entries.len() ==> (#[trigger] entries[i]).0 != (#[trigger] entries[j]).0
}

/// A key that `entries` lacks is put last.
pub proof fn lemma_put_new_key(entries: Seq<(Seq<char>, Json)>, key: Seq<char>, value: Json)
    requires
        !has_key(entries, key),
    ensures
        put(entries, key, value) == entries.push((key, value)),
    decreases entries.len(),
{
    if entries.len() == 0 {
        assert(put(entries, key, value) =~= entries.push((key, value)));
    } else {
        let rest = entries.drop_first();
        assert(entries[0].0 != key);
        assert forall|j: int| 0 <= j < rest.len() implies (#[trigger] rest[j]).0 != key by {
            assert(rest[j] == entries[j + 1]);
        }
        lemma_put_new_key(rest, key, value);
        assert(put(entries, key, value) =~= entries.push((key, value)));
    }
}

/// A key that `entries` has keeps its place: the first entry with that key
/// gets the new value, and nothing else changes.
pub proof fn lemma_put_known_key(
    entries: Seq<(Seq<char>, Json)>,
    key: Seq<char>,
    value: Json,
    at: int,
)
    requires
        0 <= at < entries.len(),
        entries[at].0 == key,
        forall|j: int| 0 <= j < at ==> (#[trigger] entries[j]).0 != key,
    ensures
        put(entries, key, value) == entries.update(at, (key, value)),
    decreases entries.len(),
{
    let rest = entries.drop_first();
    if at == 0 {
        assert(put(entries, key, value) =~= entries.update(at, (key, value)));
    } else {
        assert(entries[0].0 != key);
        assert(rest[at - 1] == entries[at]);
        assert forall|j: int| 0 <= j < at - 1 implies (#[trigger] rest[j]).0 != key by {
            assert(rest[j] == entries[j + 1]);
        }
        lemma_put_known_key(rest, key, value, at - 1);
        assert(put(entries, key, value) =~= entries.update(at, (key, value)));
    }
}

/// What each of `values` holds.
pub open spec fn each_json_of(values: Seq<Value>) -> Seq<Json> {
    values.map_values(|value: Value| json_of(value))
}

/// Trusted: `Value::from` on a `String` gives the JSON string of that text.
#[verifier::external_body]
pub(crate) fn text_value(text: String) -> (value: Value)
    ensures
        json_of(value) == Json::Text(text@),
{
    Value::from(text)
}

/// Trusted: `Value::from` on a map gives the JSON object of its entries.
#[verifier::external_body]
pub(crate) fn object_value(object: serde_json::Map<String, Value>) -> (value: Value)
    ensures
        json_of(value) == Json::Object(entries_of(object)),
{
    Value::from(object)
}

/// Trusted: `Value::from` on a vector of values gives the JSON array of
/// those values, in their order.
#[verifier::external_body]
pub(crate) fn array_value(items: Vec<Value>) -> (value: Value)
    ensures
        json_of(value) == Json::Array(each_json_of(items@)),
{
    Value::from(items)
}

/// Trusted: `Map::new` gives a map without entries.
#[verifier::external_body]
pub(crate) fn new_object() -> (object: serde_json::Map<String, Value>)
    ensures
        entries_of(object) == Seq::<(Seq<char>, Json)>::empty(),
{
    serde_json::Map::new()
}

/// Trusted: `Map::insert` replaces the value of a key that the map has,
/// leaving the entry in its place, and puts a key that it lacks last. A map
/// holds no key twice, so the entry that `put` replaces is the only one with
/// that key. The value that `insert` hands back is dropped.
#[verifier::external_body]
pub(crate) fn object_insert(object: &mut serde_json::Map<String, Value>, key: String, value: Value)
    ensures
        entries_of(*final(object)) == put(entries_of(*old(object)), key@, json_of(value)),
{
    object.insert(key, value);
}

} // verus!
