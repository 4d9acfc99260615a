//! Access to the wall clock.

use vstd::prelude::*;

verus! {

/// Relies on chrono's `Utc::now`: the current UTC time, as milliseconds
/// since the Unix epoch. Nothing is assumed of the value; no contract of
/// the library depends on what the clock returns.
#[verifier::external_body]
pub(crate) fn now_millis() -> (r: i64) {
    chrono::Utc::now().timestamp_millis()
}

} // verus!
