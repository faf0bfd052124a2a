//! Values that come from outside the program's own state: fresh random
//! identifiers and the wall clock. Nothing is promised of them but their type.

use vstd::prelude::*;

verus! {

/// Relies on uuid::Uuid::new_v4 and Uuid::as_u128: a random version-4
/// identifier, as a 128-bit integer.
#[verifier::external_body]
pub(crate) fn fresh_u128() -> (r: u128) {
    uuid::Uuid::new_v4().as_u128()
}

/// Relies on uuid::Uuid::new_v4 and its `Display`: a random version-4
/// identifier in its hyphenated text form.
#[verifier::external_body]
pub(crate) fn fresh_id_text() -> (r: String) {
    uuid::Uuid::new_v4().to_string()
}

/// Relies on chrono::Utc::now and DateTime::timestamp_millis: the current
/// time in milliseconds since the Unix epoch.
#[verifier::external_body]
pub(crate) fn now_millis() -> (r: i64) {
    chrono::Utc::now().timestamp_millis()
}

/// Relies on chrono::Utc::now and DateTime::to_rfc3339: the current time as
/// RFC 3339 text.
#[verifier::external_body]
pub(crate) fn now_rfc3339() -> (r: String) {
    chrono::Utc::now().to_rfc3339()
}

} // verus!
