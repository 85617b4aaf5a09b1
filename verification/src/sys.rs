//! Bridges to the host environment: freshly generated identifiers and the
//! current time.  Both results depend on more than the arguments, so their
//! contracts promise nothing about the values that come back; every caller
//! is verified for all possible results.

use vstd::prelude::*;

verus! {

/// Relies on uuid::Uuid::new_v4 for a freshly generated random identifier,
/// carried as its 128-bit value.  The result is random, so nothing is
/// promised of it.
#[verifier::external_body]
pub(crate) fn fresh_id() -> (id: u128) {
    uuid::Uuid::new_v4().as_u128()
}

/// Relies on chrono::Utc::now for the current time, in microseconds since
/// the Unix epoch.  The result depends on the clock, so nothing is promised
/// of it.
#[verifier::external_body]
pub(crate) fn now_micros() -> (t: u64) {
    chrono::Utc::now().timestamp_micros() as u64
}

} // verus!
