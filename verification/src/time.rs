//! Timestamps and durations as the wire format wants them: an ISO-8601
//! timestamp with microsecond precision for envelopes, and a fixed
//! `D.HH:MM:SS.ffffff` string for span durations.
//!
//! Instants are plain values: nanoseconds since the Unix epoch.

use vstd::prelude::*;
use crate::text::{dec_digits, dec_pad, u64_to_string, u64_to_string_pad};

verus! {

/// Whether `y` is a leap year in the proleptic Gregorian calendar.
pub open spec fn spec_is_leap_year(y: nat) -> bool {
    y % 4 == 0 && (y % 100 != 0 || y % 400 == 0)
}

/// Days in year `y`.
pub open spec fn spec_days_in_year(y: nat) -> nat {
    if spec_is_leap_year(y) { 366 } else { 365 }
}

/// Starting at year `y`, consume whole years out of `days` (days since the
/// start of `y`); yields the reached year and the day offset within it.
pub open spec fn spec_year_of(days: nat, y: nat) -> (nat, nat)
    decreases days,
{
    if days < spec_days_in_year(y) {
        (y, days)
    } else {
        spec_year_of((days - spec_days_in_year(y)) as nat, y + 1)
    }
}

/// Days in month `m` (1-based) of year `y`.
pub open spec fn spec_days_in_month(y: nat, m: nat) -> nat {
    if m == 2 {
        if spec_is_leap_year(y) { 29 } else { 28 }
    } else if m == 4 || m == 6 || m == 9 || m == 11 {
        30
    } else {
        31
    }
}

/// Starting at month `m` of year `y`, consume whole months out of `days`
/// (days since the start of `m`); yields the reached month and the day
/// offset within it.
pub open spec fn spec_month_of(y: nat, days: nat, m: nat) -> (nat, nat)
    decreases 13 - m,
{
    if m >= 12 || days < spec_days_in_month(y, m) {
        (m, days)
    } else {
        spec_month_of(y, (days - spec_days_in_month(y, m)) as nat, m + 1)
    }
}

/// The calendar year of an instant.
pub open spec fn spec_year(nanos: nat) -> nat {
    spec_year_of(nanos / 86_400_000_000_000, 1970).0
}

/// The calendar month (1-12) of an instant.
pub open spec fn spec_month(nanos: nat) -> nat {
    spec_month_of(spec_year(nanos), spec_year_of(nanos / 86_400_000_000_000, 1970).1, 1).0
}

/// The day of the month (1-31) of an instant.
pub open spec fn spec_day(nanos: nat) -> nat {
    spec_month_of(spec_year(nanos), spec_year_of(nanos / 86_400_000_000_000, 1970).1, 1).1 + 1
}

/// The ISO-8601 text of an instant, `YYYY-MM-DDTHH:MM:SS.ffffffZ`,
/// microsecond precision, UTC.
pub open spec fn time_chars(nanos: nat) -> Seq<char> {
    let secs_of_day = (nanos / 1_000_000_000) % 86_400;
    dec_pad(spec_year(nanos), 4) + seq!['-'] + dec_pad(spec_month(nanos), 2) + seq!['-']
        + dec_pad(spec_day(nanos), 2) + seq!['T'] + dec_pad(secs_of_day / 3600, 2) + seq![':']
        + dec_pad((secs_of_day / 60) % 60, 2) + seq![':'] + dec_pad(secs_of_day % 60, 2)
        + seq!['.'] + dec_pad((nanos / 1000) % 1_000_000, 6) + seq!['Z']
}

/// The duration text for a span, `D.HH:MM:SS.ffffff` over whole
/// microseconds.
pub open spec fn duration_chars(micros: nat) -> Seq<char> {
    let secs = micros / 1_000_000;
    dec_digits(secs / 86_400) + seq!['.'] + dec_pad((secs / 3600) % 24, 2) + seq![':']
        + dec_pad((secs / 60) % 60, 2) + seq![':'] + dec_pad(secs % 60, 2) + seq!['.']
        + dec_pad(micros % 1_000_000, 6)
}

/// Exec mirror of [`spec_is_leap_year`].
fn is_leap_year(y: u64) -> (r: bool)
    ensures
        r == spec_is_leap_year(y as nat),
{
    y % 4 == 0 && (y % 100 != 0 || y % 400 == 0)
}

/// Exec mirror of [`spec_days_in_year`].
fn days_in_year(y: u64) -> (r: u64)
    ensures
        r as nat == spec_days_in_year(y as nat),
{
    if is_leap_year(y) { 366 } else { 365 }
}

/// Exec mirror of [`spec_year_of`].
fn year_of(days: u64, y: u64) -> (r: (u64, u64))
    requires
        days <= 0xFFFF_FFFF,
        y + days <= 0xFFFF_FFFF_FFFF,
    ensures
        (r.0 as nat, r.1 as nat) == spec_year_of(days as nat, y as nat),
        r.1 <= days,
    decreases days,
{
    let len = days_in_year(y);
    if days < len {
        (y, days)
    } else {
        year_of(days - len, y + 1)
    }
}

/// Exec mirror of [`spec_days_in_month`].
fn days_in_month(y: u64, m: u64) -> (r: u64)
    ensures
        r as nat == spec_days_in_month(y as nat, m as nat),
{
    if m == 2 {
        if is_leap_year(y) { 29 } else { 28 }
    } else if m == 4 || m == 6 || m == 9 || m == 11 {
        30
    } else {
        31
    }
}

/// Exec mirror of [`spec_month_of`].
fn month_of(y: u64, days: u64, m: u64) -> (r: (u64, u64))
    requires
        m >= 1,
        m <= 12,
        days <= 0xFFFF_FFFF,
    ensures
        (r.0 as nat, r.1 as nat) == spec_month_of(y as nat, days as nat, m as nat),
        r.1 <= days,
    decreases 13 - m,
{
    let len = days_in_month(y, m);
    if m >= 12 || days < len {
        (m, days)
    } else {
        month_of(y, days - len, m + 1)
    }
}

/// The ISO-8601 text of an instant given as nanoseconds since the Unix
/// epoch; see [`time_chars`].
pub fn time_to_string(nanos: u64) -> (r: String)
    ensures
        r@ == time_chars(nanos as nat),
{
    let days: u64 = nanos / 86_400_000_000_000;
    let secs_of_day: u64 = (nanos / 1_000_000_000) % 86_400;
    let micros: u64 = (nanos / 1000) % 1_000_000;
    let (year, day_of_year) = year_of(days, 1970);
    let (month, day0) = month_of(year, day_of_year, 1);
    proof {
        reveal_strlit("-");
        reveal_strlit("T");
        reveal_strlit(":");
        reveal_strlit(".");
        reveal_strlit("Z");
    }
    let r = u64_to_string_pad(year, 4)
        .concat("-")
        .concat(u64_to_string_pad(month, 2).as_str())
        .concat("-")
        .concat(u64_to_string_pad(day0 + 1, 2).as_str())
        .concat("T")
        .concat(u64_to_string_pad(secs_of_day / 3600, 2).as_str())
        .concat(":")
        .concat(u64_to_string_pad((secs_of_day / 60) % 60, 2).as_str())
        .concat(":")
        .concat(u64_to_string_pad(secs_of_day % 60, 2).as_str())
        .concat(".")
        .concat(u64_to_string_pad(micros, 6).as_str())
        .concat("Z");
    r
}

/// The duration text for a span given whole microseconds; see
/// [`duration_chars`].
pub fn duration_to_string(micros: u64) -> (r: String)
    ensures
        r@ == duration_chars(micros as nat),
{
    let secs: u64 = micros / 1_000_000;
    proof {
        reveal_strlit(".");
        reveal_strlit(":");
    }
    let r = u64_to_string(secs / 86_400)
        .concat(".")
        .concat(u64_to_string_pad((secs / 3600) % 24, 2).as_str())
        .concat(":")
        .concat(u64_to_string_pad((secs / 60) % 60, 2).as_str())
        .concat(":")
        .concat(u64_to_string_pad(secs % 60, 2).as_str())
        .concat(".")
        .concat(u64_to_string_pad(micros % 1_000_000, 6).as_str());
    r
}

} // verus!
