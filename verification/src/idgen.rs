//! The Identifier Generator: produces identifiers for newly created
//! objects where the object kind does not accept caller-supplied ids.

use vstd::prelude::*;

verus! {

/// Relies on `ulid::Ulid::new` and `ulid::Ulid::to_string`: a freshly
/// generated identifier, rendered as 26 characters of Crockford base32,
/// lexically sortable by creation time. The value depends on the clock and
/// on randomness, so nothing beyond its length is promised; in particular
/// uniqueness holds only with overwhelming probability and is not assumed.
#[verifier::external_body]
pub(crate) fn generate_id() -> (r: String)
    ensures
        r@.len() == 26,
{
    ulid::Ulid::new().to_string()
}

} // verus!
