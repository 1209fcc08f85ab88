//! Rendering and parsing of JSON values.
//!
//! The values themselves are `serde_json::Value`s, opaque here: the library
//! carries them between the caller and the codec without looking inside.
//! Rendering and parsing are deterministic functions of their input, named
//! by `pretty_text_of` and `parsed_value_of`.

use vstd::prelude::*;

verus! {

#[verifier::external_type_specification]
#[verifier::external_body]
pub struct ExValue(serde_json::Value);

#[verifier::external_type_specification]
#[verifier::external_body]
pub struct ExError(serde_json::Error);

/// The pretty-printed text of a JSON value.
pub uninterp spec fn pretty_text_of(v: serde_json::Value) -> Seq<char>;

/// The value a text parses to, or nothing when the text is not JSON.
pub uninterp spec fn parsed_value_of(s: Seq<char>) -> Option<serde_json::Value>;

/// Relies on serde_json::to_string_pretty: the pretty-printed text depends
/// on the value alone, and serializing a `Value` into a string never fails —
/// the writer is an in-memory buffer, object keys are always strings, and
/// non-finite numbers are printed as `null`.
#[verifier::external_body]
fn pretty_print_value(v: &serde_json::Value) -> (r: Result<String, serde_json::Error>)
    ensures
        r is Ok,
        r matches Ok(s) ==> s@ == pretty_text_of(*v),
{
    serde_json::to_string_pretty(v)
}

/// Relies on serde_json::from_str::<Value>: whether a text parses, and to
/// which value, depends on the text alone.
#[verifier::external_body]
fn parse_value(s: &str) -> (r: Result<serde_json::Value, serde_json::Error>)
    ensures
        r matches Ok(v) ==> parsed_value_of(s@) == Some(v),
        r is Err ==> parsed_value_of(s@) is None,
{
    serde_json::from_str(s)
}

/// Relies on the Display impl of serde_json::Error for a readable message.
#[verifier::external_body]
fn error_text(e: &serde_json::Error) -> String {
    e.to_string()
}

/// Relies on serde_json::Value::Object and serde_json::Map::new: the empty
/// JSON object, the value the text `{}` parses to.
#[verifier::external_body]
pub(crate) fn empty_object_value() -> (r: serde_json::Value)
    ensures
        parsed_value_of("{}"@) == Some(r),
{
    serde_json::Value::Object(serde_json::Map::new())
}

/// Pretty-prints a JSON value. This always succeeds; the error side of the
/// result only mirrors the shape the underlying serializer reports in.
pub fn render_json_text(v: &serde_json::Value) -> (r: Result<String, String>)
    ensures
        r matches Ok(s) && s@ == pretty_text_of(*v),
{
    match pretty_print_value(v) {
        Ok(s) => Ok(s),
        Err(e) => Err(error_text(&e)),
    }
}

/// Parses a text as a JSON value: succeeds exactly on the texts that are
/// JSON, and a parse failure is reported as its message.
pub fn parse_json_text(s: &str) -> (r: Result<serde_json::Value, String>)
    ensures
        r is Ok <==> parsed_value_of(s@) is Some,
        r matches Ok(v) ==> parsed_value_of(s@) == Some(v),
{
    match parse_value(s) {
        Ok(v) => Ok(v),
        Err(e) => Err(error_text(&e)),
    }
}

} // verus!
