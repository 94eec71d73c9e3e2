use vstd::prelude::*;

verus! {

/// Relies on time's OffsetDateTime::now_utc().unix_timestamp(): the current
/// wall-clock time as Unix seconds. The clock is outside the model, so
/// nothing is promised of the value.
#[verifier::external_body]
pub fn now_unix() -> i64 {
    time::OffsetDateTime::now_utc().unix_timestamp()
}

} // verus!
