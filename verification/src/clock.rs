//! The time of day, for the timestamps of what is sent.

use vstd::prelude::*;

verus! {

/// `chrono::Utc::now` and `DateTime::timestamp_micros`: the microseconds
/// since the Unix epoch, as the machine's clock has them. Nothing is
/// claimed of the number: two calls need not agree.
#[verifier::external_body]
pub(crate) fn now_micros() -> (micros: u64) {
    chrono::Utc::now().timestamp_micros() as u64
}

} // verus!
