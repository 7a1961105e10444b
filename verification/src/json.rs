//! JSON values are built and read by `serde_json`. This module holds the
//! mathematical reading of a `serde_json::Value` that the contracts speak of,
//! and one thin function for each `serde_json` operation that the domain uses.
//! The contracts of those functions are taken on trust from `serde_json`;
//! everything built on top of them is proved.

use vstd::prelude::*;

verus! {

/// A JSON value of `serde_json`; its inside is read only through
/// `json_model`.
#[verifier::external_type_specification]
#[verifier::external_body]
pub struct ExJsonValue(serde_json::Value);

/// A JSON number of `serde_json`; its digits are not read here.
#[verifier::external_type_specification]
#[verifier::external_body]
pub struct ExJsonNumber(serde_json::Number);

/// What a JSON value holds: one of the six kinds of JSON, with its content.
pub ghost enum JsonModel {
    Null,
    Bool(bool),
    Number(serde_json::Number),
    Text(Seq<char>),
    List(Seq<JsonModel>),
    Object(Map<Seq<char>, JsonModel>),
}

/// What the value `v` holds.
pub uninterp spec fn json_model(v: serde_json::Value) -> JsonModel;

/// The models of a list of values, element by element.
pub open spec fn json_models(items: Seq<serde_json::Value>) -> Seq<JsonModel> {
    Seq::new(items.len(), |i: int| json_model(items[i]))
}

impl JsonModel {
    /// The members of an object; no members for any other kind.
    pub open spec fn members(self) -> Map<Seq<char>, JsonModel> {
        match self {
            JsonModel::Object(m) => m,
            _ => Map::empty(),
        }
    }

    /// Whether a member can be stored under a key: in an object, and in
    /// `null`, which then becomes an object.
    pub open spec fn accepts_members(self) -> bool {
        self is Object || self is Null
    }

    /// The member under `key`, if this is an object that has one.
    pub open spec fn member(self, key: Seq<char>) -> Option<JsonModel> {
        if self.members().contains_key(key) {
            Some(self.members()[key])
        } else {
            None
        }
    }

    /// An object that holds exactly one member.
    pub open spec fn single(key: Seq<char>, value: JsonModel) -> JsonModel {
        JsonModel::Object(Map::empty().insert(key, value))
    }
}

/// `Value::clone`: the copy holds what the value holds.
pub assume_specification[ <serde_json::Value as Clone>::clone ](v: &serde_json::Value) -> (r:
    serde_json::Value)
    ensures
        json_model(r) == json_model(*v),
;

/// `Value::String`: the JSON string with the characters of `s`.
#[verifier::external_body]
pub(crate) fn json_text(s: &str) -> (r: serde_json::Value)
    ensures
        json_model(r) == JsonModel::Text(s@),
{
    serde_json::Value::String(s.to_owned())
}

/// `Value::Bool`: the JSON boolean `b`.
#[verifier::external_body]
pub(crate) fn json_bool(b: bool) -> (r: serde_json::Value)
    ensures
        json_model(r) == JsonModel::Bool(b),
{
    serde_json::Value::Bool(b)
}

/// `Value::Array`: the JSON array of the given values, in their order.
#[verifier::external_body]
pub(crate) fn json_list(items: Vec<serde_json::Value>) -> (r: serde_json::Value)
    ensures
        json_model(r) == JsonModel::List(json_models(items@)),
{
    serde_json::Value::Array(items)
}

/// `Value::Object` of `Map::new()`: the JSON object without members.
#[verifier::external_body]
pub(crate) fn json_object() -> (r: serde_json::Value)
    ensures
        json_model(r) == JsonModel::Object(Map::empty()),
{
    serde_json::Value::Object(serde_json::Map::new())
}

/// `Value::is_object`: whether the value is a JSON object.
#[verifier::external_body]
pub(crate) fn json_is_object(v: &serde_json::Value) -> (r: bool)
    ensures
        r == (json_model(*v) is Object),
{
    v.is_object()
}

/// `Value::is_null`: whether the value is JSON `null`.
#[verifier::external_body]
pub(crate) fn json_is_null(v: &serde_json::Value) -> (r: bool)
    ensures
        r == (json_model(*v) is Null),
{
    v.is_null()
}

/// `Value::get` with a string key: the member under `key` where the value
/// is an object that has one, and nothing otherwise.
#[verifier::external_body]
pub(crate) fn json_member<'a>(v: &'a serde_json::Value, key: &str) -> (r: Option<
    &'a serde_json::Value,
>)
    ensures
        match r {
            Some(m) => json_model(*v).member(key@) == Some(json_model(*m)),
            None => json_model(*v).member(key@) is None,
        },
{
    v.get(key)
}

/// Assignment through `IndexMut` with a string key (`target[key] = value`):
/// the member under `key` is set to `value`, the other members stay, and
/// `null` becomes an object first. `serde_json` panics on any other kind of
/// value, which the precondition leaves out.
#[verifier::external_body]
pub(crate) fn json_put(target: &mut serde_json::Value, key: &str, value: serde_json::Value)
    requires
        json_model(*old(target)).accepts_members(),
    ensures
        json_model(*final(target)) == JsonModel::Object(
            json_model(*old(target)).members().insert(key@, json_model(value)),
        ),
{
    target[key] = value;
}

} // verus!
