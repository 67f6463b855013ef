use vstd::prelude::*;

verus! {

/// `UNIX_EPOCH.elapsed()`: the time since the Unix epoch on the system clock, as whole
/// seconds (`None` for a clock set before the epoch). The value depends on the clock, so
/// nothing is stated of it.
#[verifier::external_body]
fn seconds_since_epoch() -> Option<u64> {
    std::time::UNIX_EPOCH.elapsed().ok().map(|d| d.as_secs())
}

/// The current time in Unix seconds (0 for a clock set before the epoch). It reads the
/// clock, so its value is not stated; `unix_seconds` says what it makes of the reading.
pub fn now_unix() -> i64 {
    unix_seconds(seconds_since_epoch())
}

/// A clock reading as a Unix time: the whole seconds since the epoch as an `i64` (wrapping
/// as `as` does), or 0 where the clock was set before the epoch.
pub fn unix_seconds(since_epoch: Option<u64>) -> (t: i64)
    ensures
        t == match since_epoch {
            Some(s) => s as i64,
            None => 0,
        },
{
    match since_epoch {
        Some(s) => s as i64,
        None => 0,
    }
}

} // verus!
