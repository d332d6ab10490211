//! The standard I/O error type, carried through the library's error enums.

use vstd::prelude::*;

verus! {

/// `std::io::Error`, carried opaquely.
#[verifier::external_type_specification]
#[verifier::external_body]
pub struct ExIoError(std::io::Error);

/// The text of an I/O error (`<std::io::Error as Display>::fmt`).
///
/// Nothing is stated of the text: for operating-system errors it comes from
/// the platform's error strings.
#[verifier::external_body]
pub(crate) fn io_error_text(e: &std::io::Error) -> String {
    e.to_string()
}

} // verus!
