use vstd::prelude::*;

verus! {

/// serde_json's untyped value, carried through the library as it is.
#[verifier::external_type_specification]
#[verifier::external_body]
pub struct ExValue(serde_json::Value);

/// The text held by an untyped value that is a string, and `None` for any
/// other kind of value.
pub uninterp spec fn json_string(v: serde_json::Value) -> Option<Seq<char>>;

/// Relies on `serde_json::Value::as_str`: `Some` with the string's text for a
/// string value, `None` for every other variant.
#[verifier::external_body]
pub(crate) fn string_value(v: &serde_json::Value) -> (r: Option<String>)
    ensures
        match r {
            Some(s) => json_string(*v) == Some(s@),
            None => json_string(*v) is None,
        },
{
    match v.as_str() {
        Some(s) => Some(s.to_string()),
        None => None,
    }
}

} // verus!
