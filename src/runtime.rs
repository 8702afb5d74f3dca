//! Identifiers and the clock, from outside crates.
use vstd::prelude::*;

verus! {

/// Relies on uuid::Uuid::new_v4 and its hyphenated `to_string`: a random
/// identifier of 36 characters.
#[verifier::external_body]
pub(crate) fn new_id() -> (r: String)
    ensures
        r@.len() == 36,
{
    uuid::Uuid::new_v4().to_string()
}

/// Relies on chrono::Utc::now and `timestamp_millis`: the current time in
/// milliseconds since the Unix epoch.
#[verifier::external_body]
pub(crate) fn now_millis() -> (r: i64) {
    chrono::Utc::now().timestamp_millis()
}

} // verus!
