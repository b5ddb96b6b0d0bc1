//! JSON values carried through the library without being looked into.

use vstd::prelude::*;

verus! {

/// `serde_json::Value`, held opaquely: the library stores and returns such
/// values but never reads inside one.
#[verifier::external_type_specification]
#[verifier::external_body]
pub struct ExValue(serde_json::Value);

/// Calls `Clone::clone` on a `serde_json::Value`.  `Value` derives `Clone`,
/// so the copy is the same value.
#[verifier::external_body]
pub(crate) fn clone_value(v: &serde_json::Value) -> (r: serde_json::Value)
    ensures
        r == *v,
{
    v.clone()
}

} // verus!
