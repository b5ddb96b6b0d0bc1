//! Fresh identifiers and the current time, from outside crates.

use vstd::prelude::*;

verus! {

/// Calls `uuid::Uuid::new_v4` and formats the UUID with `to_string`: a
/// random version-4 UUID, hyphenated and lower case, 36 characters long.
/// The value is random, so nothing else is promised of it.
#[verifier::external_body]
pub(crate) fn new_uuid() -> (id: String)
    ensures
        id@.len() == 36,
{
    uuid::Uuid::new_v4().to_string()
}

/// Calls `chrono::Utc::now().timestamp()`: the current time in seconds since
/// the Unix epoch.  It depends on the clock, so nothing is promised of it.
#[verifier::external_body]
pub(crate) fn now_timestamp() -> (t: i64) {
    chrono::Utc::now().timestamp()
}

} // verus!
