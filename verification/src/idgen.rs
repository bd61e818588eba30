//! Trusted boundary to the identifier generator and the clock.

use vstd::prelude::*;

verus! {

/// Relies on uuid::Uuid::new_v4, a version-4 random identifier, carried as
/// its 128-bit value via uuid::Uuid::as_u128. Nothing can be promised of a
/// random value: callers must check freshness against the store themselves.
#[verifier::external_body]
pub(crate) fn fresh_id() -> u128 {
    uuid::Uuid::new_v4().as_u128()
}

/// Relies on chrono::Utc::now, read as milliseconds since the Unix epoch via
/// chrono::DateTime::timestamp_millis. Nothing can be promised of the
/// clock's value.
#[verifier::external_body]
pub(crate) fn now_millis() -> i64 {
    chrono::Utc::now().timestamp_millis()
}

} // verus!
