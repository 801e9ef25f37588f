//! The freshness policy: when cached data is too old to be served as is.

use vstd::prelude::*;

verus! {

/// Twenty-four hours, in microseconds: the retention window used by default.
pub const ONE_DAY_MICROS: i64 = 86_400_000_000;

/// The timestamp that stands for "no refresh has ever succeeded".
pub const NEVER_REFRESHED: i64 = 0;

/// Whether data last refreshed at `last_refresh` is stale at `now`, for a
/// retention window of `ttl`. All three are microseconds since the Unix epoch.
pub open spec fn stale(last_refresh: int, now: int, ttl: int) -> bool {
    last_refresh == NEVER_REFRESHED || last_refresh + ttl < now
}

/// Decides whether cached data must be refreshed before it is served.
pub fn is_stale(last_refresh: i64, now: i64, ttl: i64) -> (r: bool)
    ensures
        r == stale(last_refresh as int, now as int, ttl as int),
{
    if last_refresh == NEVER_REFRESHED {
        return true;
    }
    match last_refresh.checked_add(ttl) {
        Some(deadline) => deadline < now,
        // The sum left the range of `i64`: it lies below every `now` when the
        // window is negative, and above every `now` otherwise.
        None => ttl < 0,
    }
}

} // verus!
