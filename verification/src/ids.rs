//! Fresh identifiers for agents, tasks, crews and consensus sessions.
use vstd::prelude::*;

use crate::orchestration::crew::Timestamp;

verus! {

/// Calls `uuid::Uuid::new_v4` and returns the identifier's 128 bits
/// (`Uuid::as_u128`). The bits are random; the source fixes the version
/// nibble to 4 and the two variant bits to `10`, which is all that holds
/// of every outcome. Nothing makes two results differ.
#[verifier::external_body]
pub(crate) fn new_id() -> (id: u128)
    ensures
        (id >> 76u128) & 0xfu128 == 4,
        (id >> 62u128) & 0x3u128 == 2,
{
    uuid::Uuid::new_v4().as_u128()
}

/// Calls `chrono::Utc::now` and returns the current time as whole seconds
/// since the Unix epoch (`DateTime::timestamp`) and the nanoseconds past
/// that second (`DateTime::timestamp_subsec_nanos`), the full precision of
/// the `DateTime<Utc>`. It reads the clock, so nothing is stated of the
/// seconds; chrono keeps the nanoseconds below two billion (a leap second
/// may take them past one billion).
#[verifier::external_body]
pub(crate) fn now() -> (t: Timestamp)
    ensures
        t.nanos < 2_000_000_000,
{
    let now = chrono::Utc::now();
    Timestamp { secs: now.timestamp(), nanos: now.timestamp_subsec_nanos() }
}

} // verus!
