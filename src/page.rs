//! Decoding one response page of a host search into its matched records.
use vstd::prelude::*;

verus! {

#[verifier::external_type_specification]
#[verifier::external_body]
pub struct ExJsonValue(serde_json::Value);

#[verifier::external_type_specification]
#[verifier::external_body]
pub struct ExJsonError(serde_json::Error);

/// What a text holds under the key `key`, as serde_json reads it: `None`
/// where serde_json does not accept the text as one JSON value; `Some(None)`
/// where that value is not an object with an array under `key`;
/// `Some(Some(n))` where that array has `n` elements.
pub uninterp spec fn field_array_shape(text: Seq<char>, key: Seq<char>) -> Option<Option<nat>>;

/// Relies on serde_json::from_str, which fails where serde_json does not
/// accept the text as one JSON value (ill-formed text, nesting deeper than
/// its limit, numbers out of range), and on Value::get and Value::as_array,
/// which give the array under a key of an object and nothing for any other
/// value. The result depends on the text and the key alone.
#[verifier::external_body]
fn read_array_field(body: &str, key: &str) -> (r: Result<Option<Vec<serde_json::Value>>, serde_json::Error>)
    ensures
        match r {
            Err(_) => field_array_shape(body@, key@) is None,
            Ok(None) => field_array_shape(body@, key@) == Some(None::<nat>),
            Ok(Some(a)) => field_array_shape(body@, key@) == Some(Some(a@.len())),
        },
{
    match serde_json::from_str::<serde_json::Value>(body) {
        Ok(v) => Ok(v.get(key).and_then(serde_json::Value::as_array).cloned()),
        Err(e) => Err(e),
    }
}

/// What a response text holds under `matches`: the field that lists the
/// matched records.
pub open spec fn matches_shape(text: Seq<char>) -> Option<Option<nat>> {
    field_array_shape(text, "matches"@)
}

/// Why a response page yields no records.
#[derive(Debug, Clone, Copy, PartialEq, Eq, Structural)]
pub enum PageError {
    /// serde_json does not accept the body as one JSON value.
    Malformed,
    /// The body is JSON but holds no array under `matches`.
    NoMatches,
}

/// What decoding a page yields: the number of its records, or the error.
pub open spec fn page_outcome(body: Seq<char>) -> Result<nat, PageError> {
    match matches_shape(body) {
        None => Err(PageError::Malformed),
        Some(None) => Err(PageError::NoMatches),
        Some(Some(n)) => Ok(n),
    }
}

pub open spec fn outcome_of(r: Result<Vec<serde_json::Value>, PageError>) -> Result<nat, PageError> {
    match r {
        Ok(a) => Ok(a@.len()),
        Err(e) => Err(e),
    }
}

/// The records of one response page, each to be stored as one document:
/// as many as the page's `matches` array holds.
pub fn page_matches(body: &str) -> (r: Result<Vec<serde_json::Value>, PageError>)
    ensures
        outcome_of(r) == page_outcome(body@),
{
    match read_array_field(body, "matches") {
        Err(_) => Err(PageError::Malformed),
        Ok(None) => Err(PageError::NoMatches),
        Ok(Some(a)) => Ok(a),
    }
}

} // verus!
