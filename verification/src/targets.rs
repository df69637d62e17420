//! The target list of a duplication request: a JSON array of target
//! identifiers carried in a request header.

use vstd::prelude::*;

verus! {

/// `serde_json::Error`, the reason a document was not accepted. Opaque.
#[verifier::external_type_specification]
#[verifier::external_body]
pub struct ExJsonError(serde_json::Error);

/// What `serde_json` makes of a text read as a JSON array of strings: the
/// strings of the array, or `None` where the text is not such a document.
pub uninterp spec fn json_string_array(text: Seq<char>) -> Option<Seq<Seq<char>>>;

/// The character sequences of a list of strings.
pub open spec fn texts_of(items: Seq<String>) -> Seq<Seq<char>> {
    Seq::new(items.len(), |i: int| items[i]@)
}

/// Why a request names no usable target list.
#[derive(Clone, Copy, Debug, PartialEq, Eq, Structural)]
pub enum TargetsError {
    /// The target-list header is absent, or its value is not visible text.
    MissingHeader,
    /// The header's text is not a JSON array of strings.
    Malformed,
}

/// `serde_json::from_str` at type `Vec<String>`. The outcome depends on
/// the text alone and is named by [`json_string_array`].
#[verifier::external_body]
fn json_parse_string_array(text: &str) -> (r: Result<Vec<String>, serde_json::Error>)
    ensures
        match r {
            Ok(items) => json_string_array(text@) == Some(texts_of(items@)),
            Err(_) => json_string_array(text@) is None,
        },
{
    serde_json::from_str::<Vec<String>>(text)
}

/// Parses the text of the target-list header.
///
/// Succeeds exactly when the text is a JSON array of strings, and then
/// returns its elements in order.
pub fn parse_targets(text: &str) -> (r: Result<Vec<String>, TargetsError>)
    ensures
        match r {
            Ok(targets) => json_string_array(text@) == Some(texts_of(targets@)),
            Err(e) => e == TargetsError::Malformed && json_string_array(text@) is None,
        },
{
    match json_parse_string_array(text) {
        Ok(targets) => Ok(targets),
        Err(_) => Err(TargetsError::Malformed),
    }
}

} // verus!
