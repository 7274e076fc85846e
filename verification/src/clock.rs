//! The time.

use vstd::prelude::*;

verus! {

/// How far apart, in seconds, two times may be for the one to be fresh at the other.
pub const MAX_AGE_SECS: u64 = 300;

/// Whether a time stamp is fresh: neither too old nor too far ahead.
pub open spec fn is_fresh(now: u64, timestamp: u64) -> bool {
    -MAX_AGE_SECS <= now - timestamp <= MAX_AGE_SECS
}

/// Whether a time stamp is fresh.
pub fn fresh(now: u64, timestamp: u64) -> (r: bool)
    ensures
        r == is_fresh(now, timestamp),
{
    if now >= timestamp {
        now - timestamp <= MAX_AGE_SECS
    } else {
        timestamp - now <= MAX_AGE_SECS
    }
}

/// `SystemTime::elapsed` of the standard library, on the Unix epoch: the seconds since then, or
/// nothing where the clock stands before it.
#[verifier::external_body]
fn seconds_since_epoch() -> (r: Option<u64>) {
    match std::time::UNIX_EPOCH.elapsed() {
        Ok(d) => Some(d.as_secs()),
        Err(_) => None,
    }
}

/// The time that a reading of the clock stands for, in seconds since the Unix epoch: a clock that
/// stands before the epoch counts as standing at it.
pub fn time_read(reading: Option<u64>) -> (r: u64)
    ensures
        r == match reading {
            Some(s) => s,
            None => 0,
        },
{
    match reading {
        Some(s) => s,
        None => 0,
    }
}

/// The time in seconds since the Unix epoch, as the clock is read now. Which time that is, only the
/// clock knows.
pub(crate) fn unix_time() -> u64 {
    time_read(seconds_since_epoch())
}

/// Freshness does not depend on which of two times is the later one.
pub proof fn law_freshness_is_symmetric(a: u64, b: u64)
    ensures
        is_fresh(a, b) == is_fresh(b, a),
        is_fresh(a, a),
{
}

/// Two moments are fresh to each other exactly where at most five minutes lie between them, whichever
/// comes first.
pub proof fn law_freshness_lasts_five_minutes(now: u64, then: u64, seconds: u64)
    ensures
        now == then + seconds ==> (is_fresh(now, then) <==> seconds <= 300),
        then == now + seconds ==> (is_fresh(now, then) <==> seconds <= 300),
{
}

} // verus!
