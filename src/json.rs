//! What the library relies on from `serde_json` and from std's UTF-8 decoding.
use vstd::prelude::*;

verus! {

#[verifier::external_type_specification]
#[verifier::external_body]
pub struct ExValue(serde_json::Value);

/// The value that `serde_json::from_str::<Value>` makes of a text, or `None`
/// where the text is no JSON document.
pub uninterp spec fn json_parse(s: Seq<char>) -> Option<serde_json::Value>;

/// The members of a JSON object by key; empty for a value that is no object.
pub uninterp spec fn json_entries(v: serde_json::Value) -> Map<Seq<char>, serde_json::Value>;

/// The text of a JSON string value; `None` for any other value.
pub uninterp spec fn json_str(v: serde_json::Value) -> Option<Seq<char>>;

/// The JSON string literal that `serde_json::to_string` writes for a text:
/// quotes around it, with the characters that JSON escapes escaped.
pub uninterp spec fn json_quoted(s: Seq<char>) -> Seq<char>;

/// The text that a byte sequence decodes to as UTF-8, or `None` where it is no
/// valid UTF-8.
pub uninterp spec fn utf8_text(b: Seq<u8>) -> Option<Seq<char>>;

/// Relies on `serde_json::from_str::<serde_json::Value>`: it parses one JSON
/// document, and its result depends on the text alone.
#[verifier::external_body]
pub(crate) fn parse_json(s: &str) -> (r: Option<serde_json::Value>)
    ensures
        r == json_parse(s@),
{
    serde_json::from_str::<serde_json::Value>(s).ok()
}

/// Relies on `serde_json::Value::get` with a `&str` key: the member of an
/// object under that key, and `None` for a missing key or a value that is no
/// object. The member is handed back as a clone.
#[verifier::external_body]
pub(crate) fn json_get(v: &serde_json::Value, key: &str) -> (r: Option<serde_json::Value>)
    ensures
        r == (if json_entries(*v).contains_key(key@) {
            Some(json_entries(*v)[key@])
        } else {
            None::<serde_json::Value>
        }),
{
    v.get(key).cloned()
}

/// Relies on `serde_json::Value::as_str`: the text of a string value, `None`
/// for any other value.
#[verifier::external_body]
pub(crate) fn json_as_str(v: &serde_json::Value) -> (r: Option<String>)
    ensures
        r matches Some(t) ==> json_str(*v) == Some(t@),
        r is None ==> json_str(*v) is None,
{
    v.as_str().map(|t| t.to_string())
}

/// Relies on `serde_json::to_string` applied to a `str`: it writes the quoted,
/// escaped literal, and writing into its in-memory buffer does not fail.
#[verifier::external_body]
pub(crate) fn quote_json(s: &str) -> (r: String)
    ensures
        r@ == json_quoted(s@),
{
    match serde_json::to_string(s) {
        Ok(t) => t,
        Err(_) => String::new(),
    }
}

/// Relies on `String::from_utf8`: the decoded text, or an error where the bytes
/// are no valid UTF-8.
#[verifier::external_body]
pub(crate) fn decode_utf8(b: Vec<u8>) -> (r: Option<String>)
    ensures
        r matches Some(t) ==> utf8_text(b@) == Some(t@),
        r is None ==> utf8_text(b@) is None,
{
    String::from_utf8(b).ok()
}

} // verus!
