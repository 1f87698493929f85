//! Opaque record identifiers, drawn at random.

use vstd::prelude::*;

verus! {

/// Relies on uuid::Uuid::new_v4 and its hyphenated rendering: a fresh
/// version-4 UUID prints as exactly 36 characters. The value itself is
/// random; nothing else is assumed of it.
#[verifier::external_body]
pub(crate) fn fresh_uuid() -> (r: String)
    ensures
        r@.len() == 36,
{
    uuid::Uuid::new_v4().to_string()
}

} // verus!
