//! The time of day, read from the system clock through `chrono`.
//!
//! `Utc::now` stops the program where the system clock is set before the
//! Unix epoch; on any other clock the functions here return.

use vstd::prelude::*;
use vstd::string::*;
use chrono::{Datelike, Utc};

verus! {

/// `Utc::now().timestamp()`: seconds since the Unix epoch. Nothing is
/// stated of what the clock shows.
#[verifier::external_body]
fn system_seconds() -> (seconds: i64) {
    Utc::now().timestamp()
}

/// `Utc::now()`, with `Datelike::year` and `Datelike::month` of it: year
/// and month of the current date. Nothing is stated of what the clock
/// shows.
#[verifier::external_body]
pub(crate) fn current_year_month() -> (date: (i32, u32)) {
    let now = Utc::now();
    (now.year(), now.month())
}

/// `Utc::now().to_rfc3339()`: the current time as an RFC 3339 text.
#[verifier::external_body]
pub(crate) fn current_rfc3339() -> (text: String) {
    Utc::now().to_rfc3339()
}

/// One decimal digit as a text.
pub open spec fn digit_text(d: int) -> Seq<char> {
    if d == 0 {
        "0"@
    } else if d == 1 {
        "1"@
    } else if d == 2 {
        "2"@
    } else if d == 3 {
        "3"@
    } else if d == 4 {
        "4"@
    } else if d == 5 {
        "5"@
    } else if d == 6 {
        "6"@
    } else if d == 7 {
        "7"@
    } else if d == 8 {
        "8"@
    } else {
        "9"@
    }
}

/// The last two decimal digits of `n`.
pub open spec fn two_digits(n: int) -> Seq<char> {
    digit_text((n / 10) % 10) + digit_text(n % 10)
}

/// The year that a period is named after: `year`, kept within 0 and 9999.
pub open spec fn period_year(year: i32) -> int {
    if year < 0 {
        0
    } else if year > 9999 {
        9999
    } else {
        year as int
    }
}

/// The name of the period of a date: the year in four digits, then the
/// month in two.
pub open spec fn period_text(year: i32, month: u32) -> Seq<char> {
    two_digits(period_year(year) / 100) + two_digits(period_year(year) % 100) + two_digits(
        month as int,
    )
}

fn digit(d: u32) -> (text: &'static str)
    requires
        d < 10,
    ensures
        text@ == digit_text(d as int),
{
    if d == 0 {
        "0"
    } else if d == 1 {
        "1"
    } else if d == 2 {
        "2"
    } else if d == 3 {
        "3"
    } else if d == 4 {
        "4"
    } else if d == 5 {
        "5"
    } else if d == 6 {
        "6"
    } else if d == 7 {
        "7"
    } else if d == 8 {
        "8"
    } else {
        "9"
    }
}

fn put_two_digits(out: &mut String, n: u32)
    ensures
        final(out)@ == old(out)@ + two_digits(n as int),
{
    let ghost before = out@;
    out.append(digit((n / 10) % 10));
    out.append(digit(n % 10));
    assert(out@ =~= before + two_digits(n as int));
}

/// The name of the period of a date: "202603" for March 2026.
pub fn period(year: i32, month: u32) -> (out: String)
    ensures
        out@ == period_text(year, month),
{
    let y: u32 = if year < 0 {
        0
    } else if year > 9999 {
        9999
    } else {
        year as u32
    };
    let mut out = String::new();
    put_two_digits(&mut out, y / 100);
    put_two_digits(&mut out, y % 100);
    put_two_digits(&mut out, month);
    assert(out@ =~= period_text(year, month));
    out
}

/// The seconds since the Unix epoch that `seconds` stands for; a reading
/// below zero counts as the epoch.
pub open spec fn clamp_seconds(seconds: i64) -> u64 {
    if seconds < 0 {
        0
    } else {
        seconds as u64
    }
}

/// Brings a clock reading into the range of PCA expiry times.
pub fn seconds_from(seconds: i64) -> (out: u64)
    ensures
        out == clamp_seconds(seconds),
{
    if seconds < 0 {
        0
    } else {
        seconds as u64
    }
}

/// The current time in seconds since the Unix epoch: what the system clock
/// reads, brought into range as `clamp_seconds` says. Which reading it is
/// depends on the clock.
pub fn now_seconds() -> (out: u64)
    ensures
        exists|reading: i64| out == #[trigger] clamp_seconds(reading),
{
    let reading = system_seconds();
    let out = seconds_from(reading);
    assert(out == clamp_seconds(reading));
    out
}

} // verus!
