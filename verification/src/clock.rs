use vstd::prelude::*;

verus! {

/// Relies on chrono::Utc::now for the current wall-clock time. Nothing can
/// be promised of a clock reading, so records only carry the value.
#[verifier::external_body]
pub(crate) fn now_millis() -> i64 {
    chrono::Utc::now().timestamp_millis()
}

} // verus!
