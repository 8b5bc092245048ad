use vstd::prelude::*;

verus! {

/// A JSON document as a tree of plain values. Object members keep the order
/// in which the parser hands them over; keys are looked up by first match.
#[derive(Debug)]
pub enum JsonValue {
    Null,
    Bool(bool),
    Number(String),
    Text(String),
    Array(Vec<JsonValue>),
    Object(Vec<(String, JsonValue)>),
}

/// `serde_json`'s own tree, carried only from the parser into `from_serde`.
#[verifier::external_type_specification]
#[verifier::external_body]
pub struct ExSerdeValue(serde_json::Value);

/// The tree that `serde_json` reads from a text, if the text is JSON.
pub uninterp spec fn parsed_json(text: Seq<char>) -> Option<JsonValue>;

/// First member named `key` at or after position `i`.
pub open spec fn member_from(fields: Seq<(String, JsonValue)>, key: Seq<char>, i: int) -> Option<
    JsonValue,
>
    decreases fields.len() - i,
{
    if i < 0 || i >= fields.len() {
        None
    } else if fields[i].0@ == key {
        Some(fields[i].1)
    } else {
        member_from(fields, key, i + 1)
    }
}

/// The member named `key` of an object; nothing for other values.
pub open spec fn json_member(v: JsonValue, key: Seq<char>) -> Option<JsonValue> {
    match v {
        JsonValue::Object(fields) => member_from(fields@, key, 0),
        _ => None,
    }
}

/// Element `i` of an array; nothing for other values.
pub open spec fn json_element(v: JsonValue, i: int) -> Option<JsonValue> {
    match v {
        JsonValue::Array(items) => if 0 <= i < items@.len() {
            Some(items@[i])
        } else {
            None
        },
        _ => None,
    }
}

/// The characters of a string value; nothing for other values.
pub open spec fn json_text(v: JsonValue) -> Option<Seq<char>> {
    match v {
        JsonValue::Text(s) => Some(s@),
        _ => None,
    }
}

pub open spec fn member_chain(v: Option<JsonValue>, key: Seq<char>) -> Option<JsonValue> {
    match v {
        Some(x) => json_member(x, key),
        None => None,
    }
}

impl JsonValue {
    /// The member named `key`, when this is an object that has one.
    pub fn member(&self, key: &str) -> (r: Option<&JsonValue>)
        ensures
            r matches Some(x) ==> json_member(*self, key@) == Some(*x),
            r is None ==> json_member(*self, key@) is None,
    {
        match self {
            JsonValue::Object(fields) => {
                let key_text = String::from_str(key);
                let mut i: usize = 0;
                while i < fields.len()
                    invariant
                        i <= fields@.len(),
                        key_text@ == key@,
                        json_member(*self, key@) == member_from(fields@, key@, i as int),
                    decreases fields@.len() - i,
                {
                    if fields[i].0 == key_text {
                        return Some(&fields[i].1);
                    }
                    i = i + 1;
                }
                assert(member_from(fields@, key@, i as int) is None);
                None
            },
            _ => None,
        }
    }

    /// Element `i`, when this is an array that long.
    pub fn element(&self, i: usize) -> (r: Option<&JsonValue>)
        ensures
            r matches Some(x) ==> json_element(*self, i as int) == Some(*x),
            r is None ==> json_element(*self, i as int) is None,
    {
        match self {
            JsonValue::Array(items) => if i < items.len() {
                Some(&items[i])
            } else {
                None
            },
            _ => None,
        }
    }

    /// The text, when this is a string.
    pub fn as_text(&self) -> (r: Option<&String>)
        ensures
            r matches Some(s) ==> json_text(*self) == Some(s@),
            r is None ==> json_text(*self) is None,
    {
        match self {
            JsonValue::Text(s) => Some(s),
            _ => None,
        }
    }

    /// Converts a `serde_json` tree, one variant for one variant.
    #[verifier::external_body]
    fn from_serde(v: serde_json::Value) -> JsonValue {
        match v {
            serde_json::Value::Null => JsonValue::Null,
            serde_json::Value::Bool(b) => JsonValue::Bool(b),
            serde_json::Value::Number(n) => JsonValue::Number(n.to_string()),
            serde_json::Value::String(s) => JsonValue::Text(s),
            serde_json::Value::Array(a) => JsonValue::Array(
                a.into_iter().map(JsonValue::from_serde).collect(),
            ),
            serde_json::Value::Object(m) => JsonValue::Object(
                m.into_iter().map(|(k, x)| (k, JsonValue::from_serde(x))).collect(),
            ),
        }
    }
}

/// Relies on `serde_json::from_str` into `serde_json::Value`: whether a text
/// is JSON, and the tree it holds, depend on the text alone. The error is
/// the parser's message.
#[verifier::external_body]
pub(crate) fn parse_json(text: &str) -> (r: Result<JsonValue, String>)
    ensures
        r is Ok <==> parsed_json(text@) is Some,
        r is Ok ==> parsed_json(text@) == Some(r.unwrap()),
{
    match serde_json::from_str::<serde_json::Value>(text) {
        Ok(v) => Ok(JsonValue::from_serde(v)),
        Err(e) => Err(e.to_string()),
    }
}

} // verus!
