//! The address of a remote service.
//!
//! A service is addressed by a principal: up to 29 bytes, written as text in
//! groups of five base-32 characters with a checksum in front. The text is
//! decoded by the `candid` crate; this module is where the library meets it.

use vstd::prelude::*;
use candid::types::principal::PrincipalError;
use candid::Principal;

verus! {

/// The longest that a principal can be, in bytes.
pub const PRINCIPAL_MAX_BYTES: usize = 29;

/// `candid`'s error for a text that is not the text of a principal. The
/// library carries it from the decoder to the place where it is dropped, and
/// never looks inside.
#[verifier::external_type_specification]
#[verifier::external_body]
pub struct ExPrincipalError(PrincipalError);

/// What `candid::Principal::from_text` makes of a text: the bytes of the
/// principal that the text stands for, or nothing where it rejects the text.
/// The decoding (base 32, a CRC-32 checksum, the grouping by dashes) is
/// candid's and is not restated here.
pub uninterp spec fn principal_bytes_of_text(text: Seq<char>) -> Option<Seq<u8>>;

/// Calls `candid::Principal::from_text` and hands out the principal's bytes
/// (`Principal::as_slice`). Two things are trusted. The outcome depends on
/// the text alone, which is what gives it the name
/// `principal_bytes_of_text`. And a principal that comes out has at most 29
/// bytes: `from_text` rejects a text that holds more as too long.
#[verifier::external_body]
fn principal_from_text(text: &str) -> (decoded: Result<Vec<u8>, PrincipalError>)
    ensures
        match decoded {
            Ok(bytes) => principal_bytes_of_text(text@) == Some(bytes@) && bytes@.len() <= PRINCIPAL_MAX_BYTES,
            Err(_) => principal_bytes_of_text(text@) is None,
        },
{
    match Principal::from_text(text) {
        Ok(principal) => Ok(principal.as_slice().to_vec()),
        Err(error) => Err(error),
    }
}

/// The bytes of the principal that `text` stands for, at most 29 of them,
/// or `None` where the text is not the text of a principal.
pub fn parse_principal(text: &str) -> (parsed: Option<Vec<u8>>)
    ensures
        match parsed {
            Some(bytes) => principal_bytes_of_text(text@) == Some(bytes@) && bytes@.len() <= PRINCIPAL_MAX_BYTES,
            None => principal_bytes_of_text(text@) is None,
        },
{
    match principal_from_text(text) {
        Ok(bytes) => Some(bytes),
        Err(_) => None,
    }
}

} // verus!
