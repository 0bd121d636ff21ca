//! Decoding a request document into a call descriptor.
//!
//! Parsing the JSON text into a tree of [`DynamicValue`]s is delegated to
//! `serde_json` behind a trusted boundary; everything after the parse — the
//! required fields, their shapes, and the error for each way a document can
//! be malformed — is verified here. Decoding is all-or-nothing: no partial
//! descriptor is ever produced.

use crate::value::DynamicValue;
use vstd::prelude::*;

verus! {

/// A late-bound automation call: the target to instantiate, the method to
/// invoke on it, and the named property values to assign first, in the
/// order the decoder encountered them.
#[derive(Debug, PartialEq)]
pub struct CallDescriptor {
    pub version: String,
    pub prog_id: String,
    pub method: String,
    pub properties: Vec<(String, DynamicValue)>,
}

/// Why a request document was rejected. Decoding fails exactly when the
/// text is not a JSON document, the document is not an object, or a
/// required field is absent or of the wrong shape.
#[derive(Debug, Clone, Copy, PartialEq, Eq, Structural)]
pub enum DecodeError {
    /// The text is not well-formed JSON.
    Syntax,
    /// The document is not an object.
    NotAnObject,
    /// `version` is absent or not a string.
    BadVersion,
    /// Neither `prog_id` nor `target_id` holds a string.
    BadTarget,
    /// Neither `method` nor `method_name` holds a string.
    BadMethod,
    /// `properties` is absent or not an object.
    BadProperties,
}

/// The value under the first entry whose key reads `key`, if any.
pub open spec fn lookup(entries: Seq<(String, DynamicValue)>, key: Seq<char>) -> Option<
    DynamicValue,
>
    decreases entries.len(),
{
    if entries.len() == 0 {
        None
    } else if entries[0].0@ == key {
        Some(entries[0].1)
    } else {
        lookup(entries.skip(1), key)
    }
}

/// The string under `key`, if the key is present and holds a string.
pub open spec fn text_field(entries: Seq<(String, DynamicValue)>, key: Seq<char>) -> Option<
    String,
> {
    match lookup(entries, key) {
        Some(DynamicValue::Text(s)) => Some(s),
        _ => None,
    }
}

/// The target identifier: the string under `prog_id`, or, failing that,
/// the string under `target_id`.
pub open spec fn spec_target(entries: Seq<(String, DynamicValue)>) -> Option<String> {
    if text_field(entries, "prog_id"@) is Some {
        text_field(entries, "prog_id"@)
    } else {
        text_field(entries, "target_id"@)
    }
}

/// The method name: the string under `method`, or, failing that, the
/// string under `method_name`.
pub open spec fn spec_method(entries: Seq<(String, DynamicValue)>) -> Option<String> {
    if text_field(entries, "method"@) is Some {
        text_field(entries, "method"@)
    } else {
        text_field(entries, "method_name"@)
    }
}

/// What decoding a parsed document yields: the descriptor, or the error
/// for the first requirement the document misses. Fields are checked in
/// the order version, target, method, properties; unknown fields are
/// ignored.
pub open spec fn spec_decode(root: DynamicValue) -> Result<CallDescriptor, DecodeError> {
    match root {
        DynamicValue::Object(entries) => {
            if text_field(entries@, "version"@) is None {
                Err(DecodeError::BadVersion)
            } else if spec_target(entries@) is None {
                Err(DecodeError::BadTarget)
            } else if spec_method(entries@) is None {
                Err(DecodeError::BadMethod)
            } else {
                match lookup(entries@, "properties"@) {
                    Some(DynamicValue::Object(props)) => Ok(
                        CallDescriptor {
                            version: text_field(entries@, "version"@)->0,
                            prog_id: spec_target(entries@)->0,
                            method: spec_method(entries@)->0,
                            properties: props,
                        },
                    ),
                    _ => Err(DecodeError::BadProperties),
                }
            }
        },
        _ => Err(DecodeError::NotAnObject),
    }
}

/// Relies on `str`'s `==` comparing the character contents of the two
/// strings.
#[verifier::external_body]
fn str_eq(a: &str, b: &str) -> (r: bool)
    ensures
        r == (a@ == b@),
{
    a == b
}

/// A reference to the value under the first entry whose key reads `key`.
fn find_field<'a>(entries: &'a Vec<(String, DynamicValue)>, key: &str) -> (r: Option<
    &'a DynamicValue,
>)
    ensures
        match r {
            Some(v) => lookup(entries@, key@) == Some(*v),
            None => lookup(entries@, key@) is None,
        },
{
    let mut j: usize = 0;
    assert(entries@.skip(0) =~= entries@);
    while j < entries.len()
        invariant
            j <= entries.len(),
            lookup(entries@, key@) == lookup(entries@.skip(j as int), key@),
        decreases entries.len() - j,
    {
        if str_eq(entries[j].0.as_str(), key) {
            assert(entries@.skip(j as int)[0] == entries@[j as int]);
            return Some(&entries[j].1);
        }
        proof {
            assert(entries@.skip(j as int)[0] == entries@[j as int]);
            assert(entries@.skip(j as int).skip(1) =~= entries@.skip(j as int + 1));
        }
        j += 1;
    }
    assert(entries@.skip(j as int).len() == 0);
    None
}

/// The position of the first entry whose key reads `key`.
fn find_index(entries: &Vec<(String, DynamicValue)>, key: &str) -> (r: Option<usize>)
    ensures
        match r {
            Some(j) => j < entries@.len() && lookup(entries@, key@) == Some(
                entries@[j as int].1,
            ),
            None => lookup(entries@, key@) is None,
        },
{
    let mut j: usize = 0;
    assert(entries@.skip(0) =~= entries@);
    while j < entries.len()
        invariant
            j <= entries.len(),
            lookup(entries@, key@) == lookup(entries@.skip(j as int), key@),
        decreases entries.len() - j,
    {
        if str_eq(entries[j].0.as_str(), key) {
            assert(entries@.skip(j as int)[0] == entries@[j as int]);
            return Some(j);
        }
        proof {
            assert(entries@.skip(j as int)[0] == entries@[j as int]);
            assert(entries@.skip(j as int).skip(1) =~= entries@.skip(j as int + 1));
        }
        j += 1;
    }
    assert(entries@.skip(j as int).len() == 0);
    None
}

/// The string under `key`, cloned out of the entries.
fn get_text(entries: &Vec<(String, DynamicValue)>, key: &str) -> (r: Option<String>)
    ensures
        r == text_field(entries@, key@),
{
    match find_field(entries, key) {
        Some(DynamicValue::Text(s)) => Some(s.clone()),
        _ => None,
    }
}

/// Turns a parsed document into a call descriptor, or the error for the
/// first requirement the document misses.
pub fn decode(root: DynamicValue) -> (r: Result<CallDescriptor, DecodeError>)
    ensures
        r == spec_decode(root),
{
    match root {
        DynamicValue::Object(mut entries) => {
            let version = match get_text(&entries, "version") {
                Some(s) => s,
                None => {
                    return Err(DecodeError::BadVersion);
                },
            };
            let prog_id = match get_text(&entries, "prog_id") {
                Some(s) => s,
                None => match get_text(&entries, "target_id") {
                    Some(s) => s,
                    None => {
                        return Err(DecodeError::BadTarget);
                    },
                },
            };
            let method = match get_text(&entries, "method") {
                Some(s) => s,
                None => match get_text(&entries, "method_name") {
                    Some(s) => s,
                    None => {
                        return Err(DecodeError::BadMethod);
                    },
                },
            };
            match find_index(&entries, "properties") {
                Some(j) => {
                    let entry = entries.remove(j);
                    match entry.1 {
                        DynamicValue::Object(props) => Ok(
                            CallDescriptor { version, prog_id, method, properties: props },
                        ),
                        _ => Err(DecodeError::BadProperties),
                    }
                },
                None => Err(DecodeError::BadProperties),
            }
        },
        other => {
            assert(!(other is Object));
            Err(DecodeError::NotAnObject)
        },
    }
}

/// What `serde_json` parses the text to, translated into the bridge's own
/// value space; nothing if the text is not one well-formed JSON document.
pub uninterp spec fn json_tree(text: Seq<char>) -> Option<DynamicValue>;

#[verifier::external_type_specification]
#[verifier::external_body]
pub struct ExValue(serde_json::Value);

#[verifier::external_type_specification]
#[verifier::external_body]
pub struct ExNumber(serde_json::Number);

/// Relies on `serde_json::Number::as_i64`, `Number::is_f64` and `Number`'s
/// `Display`: a number becomes a signed 64-bit integer where it is one,
/// else its decimal text, kept apart by whether it has a floating form.
#[verifier::external_body]
fn number_to_dynamic(n: &serde_json::Number) -> (r: DynamicValue) {
    match n.as_i64() {
        Some(i) => DynamicValue::Integer(i),
        None if n.is_f64() => DynamicValue::Float(n.to_string()),
        None => DynamicValue::BigNumber(n.to_string()),
    }
}

/// Relies on `serde_json::Value`'s variants: each JSON value is carried
/// over into the bridge's own value space one-for-one.
#[verifier::external_body]
fn value_to_dynamic(v: &serde_json::Value) -> (r: DynamicValue) {
    match v {
        serde_json::Value::Null => DynamicValue::Null,
        serde_json::Value::Bool(b) => DynamicValue::Boolean(*b),
        serde_json::Value::String(s) => DynamicValue::Text(s.clone()),
        serde_json::Value::Number(n) => number_to_dynamic(n),
        serde_json::Value::Array(a) => DynamicValue::Array(
            a.iter().map(value_to_dynamic).collect(),
        ),
        serde_json::Value::Object(m) => DynamicValue::Object(
            m.iter().map(|(k, x)| (k.clone(), value_to_dynamic(x))).collect(),
        ),
    }
}

/// Relies on `serde_json::from_str` parsing one JSON document: the tree is
/// a function of the text alone, and ill-formed text yields nothing.
#[verifier::external_body]
pub fn parse_text(text: &str) -> (r: Option<DynamicValue>)
    ensures
        r == json_tree(text@),
{
    match serde_json::from_str::<serde_json::Value>(text) {
        Ok(v) => Some(value_to_dynamic(&v)),
        Err(_) => None,
    }
}

/// What decoding raw text yields: a syntax error for text that is not a
/// JSON document, else the decode of the parsed document.
pub open spec fn spec_decode_text(text: Seq<char>) -> Result<CallDescriptor, DecodeError> {
    match json_tree(text) {
        None => Err(DecodeError::Syntax),
        Some(root) => spec_decode(root),
    }
}

/// Parses and decodes one request document.
pub fn decode_text(text: &str) -> (r: Result<CallDescriptor, DecodeError>)
    ensures
        r == spec_decode_text(text@),
{
    match parse_text(text) {
        None => Err(DecodeError::Syntax),
        Some(root) => decode(root),
    }
}

} // verus!
