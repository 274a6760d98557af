use vstd::prelude::*;
use serde_json::Value;

verus! {

/// Declares serde_json::Value so that it can stand in signatures; the
/// verifier treats such a value as opaque and reads it only through the
/// wrappers below.
#[verifier::external_type_specification]
#[verifier::external_body]
pub struct ExValue(Value);

/// The JSON document a byte string parses to, if it is well-formed.
pub uninterp spec fn json_doc(bytes: Seq<u8>) -> Option<Value>;

/// The value a JSON object holds under a key, if the value is an object
/// with that key.
pub uninterp spec fn json_field(v: Value, key: Seq<char>) -> Option<Value>;

/// The text a JSON value holds, if it is a string.
pub uninterp spec fn json_str(v: Value) -> Option<Seq<char>>;

/// The truth value a JSON value holds, if it is a boolean.
pub uninterp spec fn json_bool(v: Value) -> Option<bool>;

/// The elements a JSON value holds, if it is an array.
pub uninterp spec fn json_items(v: Value) -> Option<Seq<Value>>;

/// Relies on serde_json::from_slice::<Value>: parses a byte string into a
/// JSON document; the outcome is a function of the bytes alone.  A rejected
/// byte string yields the parser's message.
#[verifier::external_body]
pub fn parse_json(bytes: &[u8]) -> (r: Result<Value, String>)
    ensures
        match r {
            Ok(v) => json_doc(bytes@) == Some(v),
            Err(_) => json_doc(bytes@) is None,
        },
{
    match serde_json::from_slice(bytes) {
        Ok(v) => Ok(v),
        Err(e) => Err(e.to_string()),
    }
}

/// Relies on serde_json::Value::get: `Some` exactly when the value is an
/// object holding the key, returning the value held under it.
#[verifier::external_body]
pub fn get_field<'a>(v: &'a Value, key: &str) -> (r: Option<&'a Value>)
    ensures
        match r {
            Some(f) => json_field(*v, key@) == Some(*f),
            None => json_field(*v, key@) is None,
        },
{
    v.get(key)
}

/// Relies on serde_json::Value::as_str: `Some` exactly when the value is a
/// JSON string, returning its text.
#[verifier::external_body]
pub fn get_str(v: &Value) -> (r: Option<String>)
    ensures
        match r {
            Some(s) => json_str(*v) == Some(s@),
            None => json_str(*v) is None,
        },
{
    match v.as_str() {
        Some(s) => Some(s.to_owned()),
        None => None,
    }
}

/// Relies on serde_json::Value::as_bool: `Some` exactly when the value is a
/// JSON boolean, returning it.
#[verifier::external_body]
pub fn get_bool(v: &Value) -> (r: Option<bool>)
    ensures
        r == json_bool(*v),
{
    v.as_bool()
}

/// Relies on serde_json::Value::as_array: `Some` exactly when the value is a
/// JSON array, returning its elements in order.
#[verifier::external_body]
pub fn get_items<'a>(v: &'a Value) -> (r: Option<&'a Vec<Value>>)
    ensures
        match r {
            Some(items) => json_items(*v) == Some(items@),
            None => json_items(*v) is None,
        },
{
    v.as_array()
}

} // verus!
