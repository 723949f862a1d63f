//! JSON values as the library reads them.

use crate::text::same;
use vstd::prelude::*;

verus! {

broadcast use vstd::string::group_string_axioms;

/// `serde_json::Value`, carried through without being looked into.
#[verifier::external_type_specification]
#[verifier::external_body]
pub struct ExValue(serde_json::Value);

/// `serde_json::Number`, carried through without being looked into.
#[verifier::external_type_specification]
#[verifier::external_body]
pub struct ExNumber(serde_json::Number);

/// `serde_json::Error`, carried through without being looked into.
#[verifier::external_type_specification]
#[verifier::external_body]
pub struct ExJsonError(serde_json::Error);

/// A JSON value. The fields of an object stand in the order in which they are listed.
#[derive(Debug)]
pub enum Json {
    Null,
    Bool(bool),
    Number(serde_json::Number),
    Text(String),
    List(Vec<Json>),
    Object(Vec<(String, Json)>),
}

/// What `serde_json::from_str` makes of a text, or `None` where it fails.
pub uninterp spec fn value_of_text(text: Seq<char>) -> Option<serde_json::Value>;

/// What `serde_json::from_slice` makes of bytes, or the error with which it fails.
pub uninterp spec fn value_of_bytes(bytes: Seq<u8>) -> Result<
    serde_json::Value,
    serde_json::Error,
>;

/// A `serde_json::Value` as a [`Json`], variant by variant.
pub uninterp spec fn json_of_value(value: serde_json::Value) -> Json;

/// A [`Json`] as a `serde_json::Value`, variant by variant.
pub uninterp spec fn value_of_json(json: Json) -> serde_json::Value;

/// What `serde_json::Value` displays as.
pub uninterp spec fn text_of_value(value: serde_json::Value) -> Seq<char>;

/// Calls `serde_json::from_str`. The result depends on the text alone.
#[verifier::external_body]
fn value_from_str(text: &str) -> (r: Option<serde_json::Value>)
    ensures
        r == value_of_text(text@),
{
    serde_json::from_str(text).ok()
}

/// Calls `serde_json::from_slice`. The result, the error included, depends on the bytes alone.
#[verifier::external_body]
fn value_from_slice(bytes: &[u8]) -> (r: Result<serde_json::Value, serde_json::Error>)
    ensures
        r == value_of_bytes(bytes@),
{
    serde_json::from_slice(bytes)
}

/// Takes a `serde_json::Value` apart: each variant becomes the [`Json`] variant that stands for
/// it, with its fields moved. The fields of an object come in the order in which the value's map
/// hands them out. Putting the result together again gives the value back.
#[verifier::external_body]
fn json_from_value(value: serde_json::Value) -> (r: Json)
    ensures
        r == json_of_value(value),
        value_of_json(r) == value,
{
    match value {
        serde_json::Value::Null => Json::Null,
        serde_json::Value::Bool(flag) => Json::Bool(flag),
        serde_json::Value::Number(number) => Json::Number(number),
        serde_json::Value::String(text) => Json::Text(text),
        serde_json::Value::Array(items) => {
            Json::List(items.into_iter().map(json_from_value).collect())
        },
        serde_json::Value::Object(map) => Json::Object(
            map.into_iter().map(|(key, item)| (key, json_from_value(item))).collect(),
        ),
    }
}

/// Puts a `serde_json::Value` together from a [`Json`], variant by variant.
#[verifier::external_body]
fn value_from_json(json: &Json) -> (r: serde_json::Value)
    ensures
        r == value_of_json(*json),
{
    match json {
        Json::Null => serde_json::Value::Null,
        Json::Bool(flag) => serde_json::Value::Bool(*flag),
        Json::Number(number) => serde_json::Value::Number(number.clone()),
        Json::Text(text) => serde_json::Value::String(text.clone()),
        Json::List(items) => serde_json::Value::Array(items.iter().map(value_from_json).collect()),
        Json::Object(fields) => serde_json::Value::Object(
            fields.iter().map(|(key, item)| (key.clone(), value_from_json(item))).collect(),
        ),
    }
}

/// Calls `to_string` on a `serde_json::Value`, which renders it compactly.
#[verifier::external_body]
fn value_to_string(value: &serde_json::Value) -> (r: String)
    ensures
        r@ == text_of_value(*value),
{
    value.to_string()
}

/// The JSON value that `text` holds.
pub open spec fn json_of(text: Seq<char>) -> Option<Json> {
    match value_of_text(text) {
        Some(value) => Some(json_of_value(value)),
        None => None,
    }
}

/// The JSON value that `bytes` hold, or the error where they hold none.
pub open spec fn json_of_bytes(bytes: Seq<u8>) -> Result<Json, serde_json::Error> {
    match value_of_bytes(bytes) {
        Ok(value) => Ok(json_of_value(value)),
        Err(error) => Err(error),
    }
}

/// The compact rendering of a JSON value.
pub open spec fn rendered(json: Json) -> Seq<char> {
    text_of_value(value_of_json(json))
}

/// The first field named `key`.
pub open spec fn field_of(fields: Seq<(String, Json)>, key: Seq<char>) -> Option<Json>
    decreases fields.len(),
{
    if fields.len() == 0 {
        None
    } else if fields[0].0@ == key {
        Some(fields[0].1)
    } else {
        field_of(fields.drop_first(), key)
    }
}

/// The field named `key`, where `json` is an object that has one.
pub open spec fn field(json: Json, key: Seq<char>) -> Option<Json> {
    match json {
        Json::Object(fields) => field_of(fields@, key),
        _ => None,
    }
}

/// The text that `json` is, where it is a string.
pub open spec fn text(json: Json) -> Option<Seq<char>> {
    match json {
        Json::Text(value) => Some(value@),
        _ => None,
    }
}

/// The text that the field named `key` is, where there is one and it is a string.
pub open spec fn text_field(json: Json, key: Seq<char>) -> Option<Seq<char>> {
    match field(json, key) {
        Some(value) => text(value),
        None => None,
    }
}

/// Parses a JSON text.
pub fn parse(text: &str) -> (r: Option<Json>)
    ensures
        r == json_of(text@),
        r matches Some(json) ==> value_of_text(text@) == Some(value_of_json(json)),
{
    match value_from_str(text) {
        Some(value) => Some(json_from_value(value)),
        None => None,
    }
}

/// Parses a JSON text given as bytes.
pub fn parse_bytes(bytes: &[u8]) -> (r: Result<Json, serde_json::Error>)
    ensures
        r == json_of_bytes(bytes@),
        r matches Ok(json) ==> value_of_bytes(bytes@) == Ok::<_, serde_json::Error>(
            value_of_json(json),
        ),
{
    match value_from_slice(bytes) {
        Ok(value) => Ok(json_from_value(value)),
        Err(error) => Err(error),
    }
}

impl Json {
    /// The field named `key`, where this is an object that has one.
    pub fn get(&self, key: &str) -> (r: Option<&Json>)
        ensures
            match r {
                Some(value) => field(*self, key@) == Some(*value),
                None => field(*self, key@) is None,
            },
    {
        match self {
            Json::Object(fields) => {
                let mut i: usize = 0;
                assert(fields@.skip(0) =~= fields@);
                while i < fields.len()
                    invariant
                        i <= fields@.len(),
                        *self == Json::Object(*fields),
                        field_of(fields@, key@) == field_of(fields@.skip(i as int), key@),
                    decreases fields@.len() - i,
                {
                    assert(fields@.skip(i as int)[0] == fields@[i as int]);
                    if same(fields[i].0.as_str(), key) {
                        return Some(&fields[i].1);
                    }
                    assert(fields@.skip(i as int).drop_first() =~= fields@.skip(i + 1));
                    i += 1;
                }
                None
            },
            _ => None,
        }
    }

    /// The text that this is, where it is a string.
    pub fn as_text(&self) -> (r: Option<&str>)
        ensures
            match r {
                Some(value) => text(*self) == Some(value@),
                None => text(*self) is None,
            },
    {
        match self {
            Json::Text(value) => Some(value.as_str()),
            _ => None,
        }
    }

    /// The text that the field named `key` is, where there is one and it is a string.
    pub fn text_at(&self, key: &str) -> (r: Option<&str>)
        ensures
            match r {
                Some(value) => text_field(*self, key@) == Some(value@),
                None => text_field(*self, key@) is None,
            },
    {
        match self.get(key) {
            Some(value) => value.as_text(),
            None => None,
        }
    }

    /// The compact rendering.
    pub fn render(&self) -> (r: String)
        ensures
            r@ == rendered(*self),
    {
        value_to_string(&value_from_json(self))
    }
}

/// The field that is found under a key is the first one of that name, and none is found only where
/// the object has none of that name.
pub proof fn law_field_is_the_first_of_its_name(fields: Seq<(String, Json)>, key: Seq<char>)
    ensures
        match field_of(fields, key) {
            Some(value) => exists|i: int|
                0 <= i < fields.len() && (#[trigger] fields[i]).0@ == key && fields[i].1 == value
                    && forall|k: int| 0 <= k < i ==> (#[trigger] fields[k]).0@ != key,
            None => forall|i: int| 0 <= i < fields.len() ==> (#[trigger] fields[i]).0@ != key,
        },
    decreases fields.len(),
{
    if fields.len() > 0 && fields[0].0@ != key {
        let rest = fields.drop_first();
        law_field_is_the_first_of_its_name(rest, key);
        match field_of(rest, key) {
            Some(value) => {
                let i = choose|i: int|
                    0 <= i < rest.len() && (#[trigger] rest[i]).0@ == key && rest[i].1 == value
                        && forall|k: int| 0 <= k < i ==> (#[trigger] rest[k]).0@ != key;
                assert(fields[i + 1] == rest[i]);
                assert forall|k: int| 0 <= k < i + 1 implies (#[trigger] fields[k]).0@ != key by {
                    if k > 0 {
                        assert(fields[k] == rest[k - 1]);
                    }
                }
            },
            None => {
                assert forall|i: int| 0 <= i < fields.len() implies (#[trigger] fields[i]).0@
                    != key by {
                    if i > 0 {
                        assert(fields[i] == rest[i - 1]);
                    }
                }
            },
        }
    } else if fields.len() > 0 {
        assert(fields[0].0@ == key);
    }
}

/// A field is one of an object, and only a string has a text.
pub proof fn law_fields_and_texts(json: Json, key: Seq<char>)
    ensures
        json matches Json::Object(fields) ==> field(json, key) == field_of(fields@, key),
        !(json is Object) ==> field(json, key) is None,
        json matches Json::Text(shown) ==> text(json) == Some(shown@),
        !(json is Text) ==> text(json) is None,
        text_field(json, key) is Some <==> field(json, key) is Some && text(
            field(json, key)->0,
        ) is Some,
        text_field(json, key) is Some ==> text_field(json, key) == text(field(json, key)->0),
{
}

} // verus!
