//! The wall clock.
use vstd::prelude::*;

verus! {

/// `chrono::Utc::now` and `DateTime::timestamp_millis`: the present moment in milliseconds since
/// the Unix epoch. Nothing is claimed of the result: it is the machine's to tell. A machine whose
/// clock stands before the epoch makes the call panic.
#[verifier::external_body]
pub(crate) fn now_millis() -> (millis: i64) {
    chrono::Utc::now().timestamp_millis()
}

} // verus!
