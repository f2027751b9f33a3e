//! Moments in time: microseconds since the start of 1970, in UTC.

use chrono::Utc;
use vstd::prelude::*;

verus! {

/// `Utc::now`, as `DateTime::timestamp_micros` counts it. Nothing is claimed
/// of the moment that comes back.
#[verifier::external_body]
pub(crate) fn now() -> i64 {
    Utc::now().timestamp_micros()
}

} // verus!
