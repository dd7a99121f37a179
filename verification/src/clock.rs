//! Time as read from std and chrono. Nothing here is verified: the values
//! depend on when they are read, so the library claims little of them.
use vstd::prelude::*;
use std::time::Duration;
use std::time::Instant;
use chrono::{Datelike, Local, Timelike};

verus! {

#[verifier::external_type_specification]
#[verifier::external_body]
pub struct ExInstant(Instant);

/// `std::time::Instant::now`: the current monotonic instant. No contract: the
/// value depends on the clock.
#[verifier::external_body]
pub(crate) fn instant_now() -> Instant {
    Instant::now()
}

/// `std::time::Instant::elapsed`: time passed since `start`. No contract: the
/// value depends on the clock.
#[verifier::external_body]
pub(crate) fn instant_elapsed(start: &Instant) -> Duration {
    start.elapsed()
}

/// `std::time::Duration::as_micros`: whole microseconds in `d`. `Duration` is
/// opaque to the verifier, so the result is not tied to `d` here.
#[verifier::external_body]
pub(crate) fn duration_as_micros(d: &Duration) -> u128 {
    d.as_micros()
}

/// Whole microseconds since `start`, truncated to 64 bits as the recorder
/// stores them.
pub(crate) fn micros_since(start: &Instant) -> u64 {
    let d = instant_elapsed(start);
    duration_as_micros(&d) as u64
}

/// `chrono::Local::now`, read as plain values: the local time of day as
/// seconds past midnight (`Timelike::num_seconds_from_midnight`, below
/// 86,400 since it is built from the hour, minute and second) and the day
/// number of the local date (`Datelike::num_days_from_ce`, January 1 of year
/// 1 being day 1). Nothing more is claimed: both depend on the clock and the
/// time zone.
#[verifier::external_body]
pub(crate) fn local_now_parts() -> (r: (u32, i32))
    ensures
        r.0 < 86400,
{
    let now = Local::now();
    (now.num_seconds_from_midnight(), now.num_days_from_ce())
}

/// `chrono::Local::now` formatted with the fixed pattern `%H:%M:%S`
/// (`DateTime::format`, then `to_string`); every specifier in it is valid,
/// so the formatting cannot fail. No contract: the text depends on the
/// clock and the time zone.
#[verifier::external_body]
pub(crate) fn local_time_text() -> String {
    Local::now().format("%H:%M:%S").to_string()
}

/// `chrono::Local::now` formatted with the fixed pattern `%Y-%m-%d`
/// (`DateTime::format`, then `to_string`); every specifier in it is valid,
/// so the formatting cannot fail. No contract: the text depends on the
/// clock and the time zone.
#[verifier::external_body]
pub(crate) fn local_date_text() -> String {
    Local::now().format("%Y-%m-%d").to_string()
}

} // verus!
