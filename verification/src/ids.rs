//! New identifiers.
use crate::position::Id;
use vstd::prelude::*;

verus! {

/// Calls `uuid::Uuid::new_v4` and `uuid::Uuid::as_u128`: a random version 4 UUID,
/// as a number. Nothing is promised of it: two calls may give any two values.
#[verifier::external_body]
pub(crate) fn fresh_id() -> (id: Id) {
    uuid::Uuid::new_v4().as_u128()
}

} // verus!
