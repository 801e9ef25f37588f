//! The clock and the calendar, both from `chrono`.
//!
//! Times are microseconds since the Unix epoch, in UTC. Reading the clock and
//! writing a time out as text are left to `chrono`; the two functions here
//! make those calls, and their contracts are taken on trust.

use vstd::prelude::*;

verus! {

/// The first microsecond of the year 10000.
pub const YEAR_10000_MICROS: i64 = 253_402_300_800_000_000;

/// The text that `chrono` writes for the moment `micros` in UTC, as in
/// `2015-05-15 00:00:00 UTC`; `None` where `chrono` cannot hold that moment.
pub uninterp spec fn utc_text(micros: i64) -> Option<Seq<char>>;

/// Calls `chrono::Utc::now` and takes the moment's `timestamp_micros`.
/// Trusted, and nothing is claimed of the result: it is whatever the system
/// clock reads, and two calls may differ. `chrono` panics where the system
/// clock reads a time before 1970.
#[verifier::external_body]
pub(crate) fn now_micros() -> i64 {
    chrono::Utc::now().timestamp_micros()
}

/// Calls `to_string` on the `chrono::DateTime<Utc>` that
/// `DateTime::from_timestamp_micros` makes of `micros`. Trusted: the result
/// is the text that `utc_text` names, and there is one for every moment from
/// 1970 to the end of the year 9999. The source turns the microseconds into
/// days and a time of day, and refuses only days beyond some 262,000 years
/// from the common era.
#[verifier::external_body]
pub(crate) fn write_utc(micros: i64) -> (r: Option<String>)
    ensures
        r is Some <==> utc_text(micros) is Some,
        r matches Some(text) ==> text@ == utc_text(micros)->0,
        0 <= micros < YEAR_10000_MICROS ==> r is Some,
{
    match chrono::DateTime::from_timestamp_micros(micros) {
        Some(moment) => Some(moment.to_string()),
        None => None,
    }
}

} // verus!
