//! The wall clock, read through `chrono`.

use vstd::prelude::*;
use crate::models::Timestamp;

verus! {

/// Reads the system clock once (`std::time::SystemTime::now`), takes the
/// reading as a `chrono::DateTime<Utc>` through chrono's conversion from
/// `SystemTime`, and hands it back in two forms: the nanoseconds since the
/// epoch as `DateTime::timestamp_nanos_opt` gives them (`None` where they do
/// not fit in 64 bits), and the seconds since the epoch with the nanoseconds
/// into the second (`DateTime::timestamp`, `DateTime::timestamp_subsec_nanos`).
/// A time before the epoch comes back as a negative count.
///
/// Nothing is claimed about the reading: it is whatever the system clock
/// says.
#[verifier::external_body]
pub(crate) fn read_clock() -> (reading: (Option<i64>, Timestamp)) {
    let now = chrono::DateTime::<chrono::Utc>::from(std::time::SystemTime::now());
    let at = Timestamp { seconds: now.timestamp(), nanoseconds: now.timestamp_subsec_nanos() };
    (now.timestamp_nanos_opt(), at)
}

} // verus!
