//! Fresh identifiers for tables and hands.

use vstd::prelude::*;

verus! {

/// Number of characters of an identifier in hyphenated form.
pub const ID_LENGTH: usize = 36;

/// Draws a new identifier.
///
/// Trusted: the body calls `uuid::Uuid::new_v4` and formats the value with its
/// `Display` impl, which writes the lower-case hyphenated form, 36 characters
/// long. The contract claims that length and nothing about the characters,
/// which are random. `new_v4` panics when the operating system cannot supply
/// random bytes.
#[verifier::external_body]
pub(crate) fn random_id() -> (id: String)
    ensures
        id@.len() == ID_LENGTH,
{
    uuid::Uuid::new_v4().to_string()
}

} // verus!
