//! Payloads: the key-value object that a marker's literal parses to.
//!
//! A payload is a `serde_json::Map`. This file states what the library
//! relies on from `serde_json`, `serde_yaml` and `toml`: what a payload
//! holds, what parsing a literal gives, and what text an object encodes to.

use vstd::prelude::*;
use crate::nesting::toml_nesting;

verus! {

/// `serde_json::Map`, a JSON object, as an opaque type.
#[verifier::external_type_specification]
#[verifier::external_body]
#[verifier::reject_recursive_types(K)]
#[verifier::reject_recursive_types(V)]
pub struct ExJsonMap<K, V>(serde_json::Map<K, V>);

/// `serde_json::Value`, as an opaque type.
#[verifier::external_type_specification]
#[verifier::external_body]
pub struct ExJsonValue(serde_json::Value);

/// `serde_json::Error`, as an opaque type.
#[verifier::external_type_specification]
#[verifier::external_body]
pub struct ExJsonError(serde_json::Error);

/// `serde_yaml::Error`, as an opaque type.
#[verifier::external_type_specification]
#[verifier::external_body]
pub struct ExYamlError(serde_yaml::Error);

/// `toml::de::Error`, as an opaque type.
#[verifier::external_type_specification]
#[verifier::external_body]
pub struct ExTomlError(toml::de::Error);

/// A JSON object: string keys, each with one value.
pub type JsonObject = serde_json::Map<String, serde_json::Value>;

/// The entries of a JSON object, as a mathematical map.
pub type Entries = Map<Seq<char>, serde_json::Value>;

/// What a JSON object holds: the value under each key.
pub uninterp spec fn json_entries(object: serde_json::Map<String, serde_json::Value>) -> Map<
    Seq<char>,
    serde_json::Value,
>;

/// The entries of the object that `serde_json::from_str` reads from a JSON
/// text; `None` where it reports an error.
pub uninterp spec fn json_parsed(literal: Seq<char>) -> Option<Map<Seq<char>, serde_json::Value>>;

/// The same for `serde_yaml::from_str` and a YAML text.
pub uninterp spec fn yaml_parsed(literal: Seq<char>) -> Option<Map<Seq<char>, serde_json::Value>>;

/// The same for `toml::from_str` and a TOML text.
pub uninterp spec fn toml_parsed(literal: Seq<char>) -> Option<Map<Seq<char>, serde_json::Value>>;

/// The JSON value that is the string `text`.
pub uninterp spec fn json_string(text: Seq<char>) -> serde_json::Value;

/// The JSON value that is the object with these entries.
pub uninterp spec fn json_object(entries: Map<Seq<char>, serde_json::Value>) -> serde_json::Value;

/// The JSON value that is the array of these items.
pub uninterp spec fn json_array(items: Seq<serde_json::Value>) -> serde_json::Value;

/// The text that `serde_json::to_string` writes for the object with these
/// entries.
pub uninterp spec fn json_text(entries: Map<Seq<char>, serde_json::Value>) -> Seq<char>;

/// The deepest nesting that a TOML literal may have to be parsed. The
/// JSON and the YAML parser stop at this depth by themselves.
pub const TOML_NESTING_LIMIT: usize = 128;

/// `serde_json::from_str`, reading a JSON object. The contract names the
/// outcome: whether the text is accepted, and the entries read from it.
#[verifier::external_body]
pub(crate) fn parse_json(literal: &str) -> (r: Result<JsonObject, serde_json::Error>)
    ensures
        r is Ok == json_parsed(literal@) is Some,
        r matches Ok(object) ==> json_parsed(literal@) == Some(json_entries(object)),
{
    serde_json::from_str::<JsonObject>(literal)
}

/// `serde_yaml::from_str`, reading a YAML mapping into a JSON object. The
/// contract names the outcome in the same way.
#[verifier::external_body]
pub(crate) fn parse_yaml(literal: &str) -> (r: Result<JsonObject, serde_yaml::Error>)
    ensures
        r is Ok == yaml_parsed(literal@) is Some,
        r matches Ok(object) ==> yaml_parsed(literal@) == Some(json_entries(object)),
{
    serde_yaml::from_str::<JsonObject>(literal)
}

/// `toml::from_str`, reading a TOML document into a JSON object. The
/// contract names the outcome in the same way. This parser goes a few
/// calls deeper for each level of nesting (an array, an inline table, a
/// part of a dotted key or of a header) and sets no limit of its own, so
/// a text that nests without end would exhaust the stack: the literal's
/// nesting must keep to the limit, which leaves the stack ample room.
#[verifier::external_body]
pub(crate) fn parse_toml(literal: &str) -> (r: Result<JsonObject, toml::de::Error>)
    requires
        toml_nesting(literal@) <= TOML_NESTING_LIMIT,
    ensures
        r is Ok == toml_parsed(literal@) is Some,
        r matches Ok(object) ==> toml_parsed(literal@) == Some(json_entries(object)),
{
    toml::from_str::<JsonObject>(literal)
}

/// The `Display` text of a `serde_json` error. Nothing is claimed of it.
#[verifier::external_body]
pub(crate) fn json_error_text(error: &serde_json::Error) -> String {
    error.to_string()
}

/// The `Display` text of a `serde_yaml` error. Nothing is claimed of it.
#[verifier::external_body]
pub(crate) fn yaml_error_text(error: &serde_yaml::Error) -> String {
    error.to_string()
}

/// The `Display` text of a `toml` parse error. Nothing is claimed of it.
#[verifier::external_body]
pub(crate) fn toml_error_text(error: &toml::de::Error) -> String {
    error.to_string()
}

/// `Map::new` of `serde_json`: an object without entries.
#[verifier::external_body]
pub(crate) fn object_new() -> (r: JsonObject)
    ensures
        json_entries(r) == Entries::empty(),
{
    serde_json::Map::new()
}

/// `Map::insert` of `serde_json`: afterwards the key holds the new value,
/// whether or not it held one before, and every other key holds what it
/// held.
#[verifier::external_body]
pub(crate) fn object_insert(object: &mut JsonObject, key: String, value: serde_json::Value)
    ensures
        json_entries(*final(object)) == json_entries(*old(object)).insert(key@, value),
{
    object.insert(key, value);
}

/// `Map::len` of `serde_json`: the number of entries, which is zero for
/// an object without entries and for no other.
#[verifier::external_body]
pub(crate) fn object_len(object: &JsonObject) -> (r: usize)
    ensures
        r == json_entries(*object).len(),
        r == 0 <==> json_entries(*object) == Entries::empty(),
{
    object.len()
}

/// The variant `Value::String` of `serde_json`.
#[verifier::external_body]
pub(crate) fn value_of_string(text: String) -> (r: serde_json::Value)
    ensures
        r == json_string(text@),
{
    serde_json::Value::String(text)
}

/// The variant `Value::Array` of `serde_json`.
#[verifier::external_body]
pub(crate) fn value_of_array(items: Vec<serde_json::Value>) -> (r: serde_json::Value)
    ensures
        r == json_array(items@),
{
    serde_json::Value::Array(items)
}

/// The variant `Value::Object` of `serde_json`.
#[verifier::external_body]
pub(crate) fn value_of_object(object: JsonObject) -> (r: serde_json::Value)
    ensures
        r == json_object(json_entries(object)),
{
    serde_json::Value::Object(object)
}

/// `serde_json::to_string` on an object. It succeeds: the keys are
/// strings, and writing into memory does not fail. The contract names the
/// text, which depends on the entries alone: an object keeps its keys in
/// sorted order.
#[verifier::external_body]
pub(crate) fn object_to_string(object: &JsonObject) -> (r: Result<String, serde_json::Error>)
    ensures
        r is Ok,
        r matches Ok(text) ==> text@ == json_text(json_entries(*object)),
{
    serde_json::to_string(object)
}

} // verus!
