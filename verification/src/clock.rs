//! The one place where the crate reads the wall clock.

use vstd::prelude::*;

verus! {

/// Relies on `chrono::Utc::now` (and `DateTime::timestamp`, which converts
/// the reading to seconds): the current Unix time.  Nothing is assumed of
/// the value; every caller states what holds whatever the clock returned.
#[verifier::external_body]
pub fn now_timestamp() -> i64 {
    chrono::Utc::now().timestamp()
}

} // verus!
