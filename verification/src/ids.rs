//! Identifier generation.

use vstd::prelude::*;

verus! {

/// Relies on uuid::Uuid::new_v4 and uuid::Uuid::as_u128: draws a fresh
/// random version-4 UUID and carries it as its 128-bit value. Nothing is
/// assumed about the value drawn: callers state what holds of the state for
/// whatever id comes back.
#[verifier::external_body]
pub(crate) fn fresh_uuid() -> u128 {
    uuid::Uuid::new_v4().as_u128()
}

} // verus!
