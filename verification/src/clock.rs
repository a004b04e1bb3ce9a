//! The wall clock, as far as verification needs it: pod expiry is compared
//! against the current Unix timestamp.

use vstd::prelude::*;

verus! {

/// Relies on chrono::Utc::now: the current time, as whole seconds since the
/// Unix epoch. Nothing is promised of the value; every caller must hold for
/// any instant the clock may return.
#[verifier::external_body]
pub(crate) fn now_timestamp() -> i64 {
    chrono::Utc::now().timestamp()
}

} // verus!
