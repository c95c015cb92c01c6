//! Today's local calendar date, which decides when the list starts afresh.

use vstd::prelude::*;
use crate::text::code;

verus! {

/// `c` is an ASCII decimal digit.
pub open spec fn is_digit(c: char) -> bool {
    0x30 <= code(c) <= 0x39
}

/// The year field of a `%Y` rendering: four digits, or a sign followed by at
/// least four digits.
pub open spec fn is_year_field(y: Seq<char>) -> bool {
    ||| y.len() == 4 && forall|i: int| 0 <= i < 4 ==> is_digit(#[trigger] y[i])
    ||| y.len() >= 5 && (code(y[0]) == 0x2b || code(y[0]) == 0x2d) && forall|i: int|
        1 <= i < y.len() ==> is_digit(#[trigger] y[i])
}

/// The number that the two digits `a` and `b` write.
pub open spec fn two_digit_value(a: char, b: char) -> int {
    10 * (code(a) - 0x30) + (code(b) - 0x30)
}

/// `s` has the shape `YYYY-MM-DD` of the format `%Y-%m-%d`: a year field, a
/// dash, a month `01` to `12`, a dash, a day `01` to `31`.
pub open spec fn is_date_string(s: Seq<char>) -> bool {
    let n = s.len();
    &&& n >= 10
    &&& is_year_field(s.take(n - 6))
    &&& code(s[n - 6]) == 0x2d
    &&& is_digit(s[n - 5])
    &&& is_digit(s[n - 4])
    &&& 1 <= two_digit_value(s[n - 5], s[n - 4]) <= 12
    &&& code(s[n - 3]) == 0x2d
    &&& is_digit(s[n - 2])
    &&& is_digit(s[n - 1])
    &&& 1 <= two_digit_value(s[n - 2], s[n - 1]) <= 31
}

/// The number that the decimal digits `s` write.
pub open spec fn digits_value(s: Seq<char>) -> int
    decreases s.len(),
{
    if s.len() == 0 {
        0
    } else {
        10 * digits_value(s.drop_last()) + (code(s.last()) - 0x30)
    }
}

/// The year that a `%Y` field writes.
pub open spec fn year_value(y: Seq<char>) -> int {
    if y.len() > 0 && code(y[0]) == 0x2b {
        digits_value(y.drop_first())
    } else if y.len() > 0 && code(y[0]) == 0x2d {
        -digits_value(y.drop_first())
    } else {
        digits_value(y)
    }
}

/// `y` is a leap year of the Gregorian calendar.
pub open spec fn is_leap_year(y: int) -> bool {
    (y % 4 == 0 && y % 100 != 0) || y % 400 == 0
}

/// Days from 1 January of year 0 to 1 January of year `y` (proleptic
/// Gregorian calendar; negative before year 0).
pub open spec fn days_before_year(y: int) -> int {
    365 * y + (y - 1) / 4 - (y - 1) / 100 + (y - 1) / 400 + 1
}

/// Days from 1 January to the first day of month `m` (1 to 12) of year `y`.
pub open spec fn days_before_month(y: int, m: int) -> int {
    let base: int = if m <= 1 {
        0
    } else if m == 2 {
        31
    } else if m == 3 {
        59
    } else if m == 4 {
        90
    } else if m == 5 {
        120
    } else if m == 6 {
        151
    } else if m == 7 {
        181
    } else if m == 8 {
        212
    } else if m == 9 {
        243
    } else if m == 10 {
        273
    } else if m == 11 {
        304
    } else {
        334
    };
    base + if m > 2 && is_leap_year(y) {
        1int
    } else {
        0int
    }
}

/// The day number of the date `y-m-d`, counted from 1970-01-01 (day 0).
pub open spec fn day_number(y: int, m: int, d: int) -> int {
    days_before_year(y) + days_before_month(y, m) + d - 1 - days_before_year(1970)
}

/// The day number of the date that the string `s` of shape `YYYY-MM-DD` writes.
pub open spec fn date_day_number(s: Seq<char>) -> int {
    let n = s.len();
    day_number(
        year_value(s.take(n - 6)),
        two_digit_value(s[n - 5], s[n - 4]),
        two_digit_value(s[n - 2], s[n - 1]),
    )
}

/// The day number (from 1970-01-01) of the instant `secs` seconds after
/// 1970-01-01 00:00 UTC, seen in a zone `off` seconds ahead of UTC.
pub open spec fn day_of_instant(secs: int, off: int) -> int {
    (secs + off) / 86400
}

/// `s` is the calendar date, in some time zone, of the instant `secs` seconds
/// after 1970-01-01 00:00 UTC: the date of `secs` shifted by a zone offset of
/// less than a day either way.
pub open spec fn is_local_date_of(s: Seq<char>, secs: int) -> bool {
    &&& is_date_string(s)
    &&& exists|off: int| -86400 < off < 86400 && date_day_number(s) == #[trigger] day_of_instant(secs, off)
}

/// The date format that names the day a list belongs to.
pub open spec fn date_format() -> Seq<char> {
    seq!['%', 'Y', '-', '%', 'm', '-', '%', 'd']
}

/// `std::time::UNIX_EPOCH.elapsed()`: the time since the Unix epoch as whole
/// seconds and the nanoseconds beyond them.
///
/// Trusted: `SystemTime::elapsed` returns an error, here `None`, when the
/// system clock reads before the epoch; `Duration::subsec_nanos` is always
/// below one billion. What the clock reads is left unsaid.
#[verifier::external_body]
fn unix_time_now() -> (r: Option<(u64, u32)>)
    ensures
        r matches Some(t) ==> t.1 < 1_000_000_000,
{
    match std::time::UNIX_EPOCH.elapsed() {
        Ok(d) => Some((d.as_secs(), d.subsec_nanos())),
        Err(_) => None,
    }
}

/// `chrono::DateTime::from_timestamp(secs, nanos)`, taken to the local time
/// zone with `with_timezone(&chrono::Local)` and written with `format(fmt)`.
///
/// Trusted: `from_timestamp` gives `None` only for timestamps outside chrono's
/// range of dates, which holds every second of the years 1970 to 9999. For the
/// one format `%Y-%m-%d` (any other is refused by `requires`, since an invalid
/// one makes `to_string` panic), chrono's `write_year` writes four digits, or a
/// sign and at least four digits outside the years 0 to 9999, and `%m` and `%d`
/// write the month (1 to 12) and the day (1 to 31) as two zero-padded digits.
/// The date is that of the instant `secs` after the epoch moved by the local
/// offset, which chrono keeps strictly within a day either way
/// (`FixedOffset::east_opt`); which offset applies depends on the time zone,
/// and is left unsaid. The
/// local offset is looked up with an `unwrap` inside chrono: unusable
/// time-zone data makes the call panic, and chrono offers no call that reports
/// it instead.
#[verifier::external_body]
fn format_local_timestamp(secs: i64, nanos: u32, fmt: &str) -> (r: Option<String>)
    requires
        fmt@ == date_format(),
        nanos < 1_000_000_000,
    ensures
        r matches Some(s) ==> is_date_string(s@),
        0 <= secs <= 253_402_300_799 ==> r is Some,
        r matches Some(s) ==> (0 <= secs <= 253_402_300_799 ==> is_local_date_of(s@, secs as int)),
{
    match chrono::DateTime::from_timestamp(secs, nanos) {
        Some(t) => Some(t.with_timezone(&chrono::Local).format(fmt).to_string()),
        None => None,
    }
}

/// The local date, as `YYYY-MM-DD`, of the instant `secs` seconds (and
/// `nanos` nanoseconds) after 1970-01-01 00:00 UTC; `None` past the dates that
/// can be written.
pub fn local_date_at(secs: u64, nanos: u32) -> (r: Option<String>)
    requires
        nanos < 1_000_000_000,
    ensures
        r matches Some(s) ==> is_date_string(s@),
        secs <= 253_402_300_799 ==> (r matches Some(s) && is_local_date_of(s@, secs as int)),
{
    let fmt = "%Y-%m-%d";
    proof {
        reveal_strlit("%Y-%m-%d");
    }
    assert(fmt@ =~= date_format());
    if secs <= 0x7fff_ffff_ffff_ffff {
        format_local_timestamp(secs as i64, nanos, fmt)
    } else {
        None
    }
}

/// Today's local date, as `YYYY-MM-DD`: the local date of the instant the
/// system clock reads; `None` when it reads before 1970 (or past the dates
/// that can be written).
pub fn today_string() -> (r: Option<String>)
    ensures
        r matches Some(s) ==> is_date_string(s@),
{
    match unix_time_now() {
        Some((secs, nanos)) => local_date_at(secs, nanos),
        None => None,
    }
}

} // verus!
