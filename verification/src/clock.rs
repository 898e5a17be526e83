//! Reading the wall clock. Nothing is promised of the values read: the
//! logic that uses them is verified for every value.
use vstd::prelude::*;

verus! {

/// Seconds since the Unix epoch, read from `SystemTime::now()` (0 when the
/// clock reads a time before the epoch). Nothing is stated of the value.
#[verifier::external_body]
pub(crate) fn unix_time_secs() -> (t: u64)
{
    std::time::SystemTime::now().duration_since(std::time::UNIX_EPOCH).map(|d| d.as_secs()).unwrap_or(0)
}

/// Milliseconds since the Unix epoch, read from `SystemTime::now()` (0 when
/// the clock reads a time before the epoch, saturating at `u64::MAX`).
/// Nothing is stated of the value.
#[verifier::external_body]
pub(crate) fn unix_time_millis() -> (t: u64)
{
    std::time::SystemTime::now().duration_since(std::time::UNIX_EPOCH).map(|d| u64::try_from(d.as_millis()).unwrap_or(u64::MAX)).unwrap_or(0)
}

} // verus!
