//! The JSON error type of `serde_json`, carried through the library's error
//! enums.

use vstd::prelude::*;

verus! {

/// `serde_json::Error`, carried opaquely.
#[verifier::external_type_specification]
#[verifier::external_body]
pub struct ExJsonError(serde_json::Error);

/// The text of a JSON error (`<serde_json::Error as Display>::fmt`).
///
/// Nothing is stated of the text: it describes the parse failure in
/// `serde_json`'s own words.
#[verifier::external_body]
pub(crate) fn json_error_text(e: &serde_json::Error) -> String {
    e.to_string()
}

} // verus!
