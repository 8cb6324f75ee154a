//! Dates of posts, shown in the proleptic Gregorian calendar, in UTC.

use vstd::prelude::*;
use crate::text::decimal;

verus! {

/// The earliest UNIX timestamp that chrono can place in its calendar
/// (-262143-01-01 00:00:00 UTC).
pub const MIN_TIMESTAMP: i64 = -8334601228800i64;

/// The latest UNIX timestamp that chrono can place in its calendar
/// (262142-12-31 23:59:59 UTC).
pub const MAX_TIMESTAMP: i64 = 8210266876799i64;

/// The format of a post's date: day of month padded with a space, abbreviated
/// month name, year.
pub open spec fn date_format() -> Seq<char> {
    "%e %b %Y"@
}

/// The format of a date with its time of day.
pub open spec fn timestamp_format() -> Seq<char> {
    "%e %b %Y %H:%M:%S"@
}

/// `y` is a leap year of the Gregorian calendar.
pub open spec fn is_leap_year(y: int) -> bool {
    y % 4 == 0 && (y % 100 != 0 || y % 400 == 0)
}

/// The number of days of month `m` (1 to 12) of year `y`.
pub open spec fn days_in_month(y: int, m: int) -> int {
    if m == 2 {
        if is_leap_year(y) { 29 } else { 28 }
    } else if m == 4 || m == 6 || m == 9 || m == 11 {
        30
    } else {
        31
    }
}

/// The number of days of year `y` before the first of month `m`.
pub open spec fn days_before_month(y: int, m: int) -> int {
    let base: int = if m == 1 { 0 } else if m == 2 { 31 } else if m == 3 { 59 } else if m == 4 { 90 }
        else if m == 5 { 120 } else if m == 6 { 151 } else if m == 7 { 181 } else if m == 8 { 212 }
        else if m == 9 { 243 } else if m == 10 { 273 } else if m == 11 { 304 } else { 334 };
    if m > 2 && is_leap_year(y) { base + 1 } else { base }
}

/// The day `y`-`m`-`d`, counted in days since 1970-01-01 (negative before).
pub open spec fn day_number(y: int, m: int, d: int) -> int {
    365 * (y - 1) + (y - 1) / 4 - (y - 1) / 100 + (y - 1) / 400 + days_before_month(y, m) + d - 1
        - 719162
}

/// `(y, m, d)` is a date of the calendar.
pub open spec fn is_date(y: int, m: int, d: int) -> bool {
    1 <= m <= 12 && 1 <= d <= days_in_month(y, m)
}

/// The date (year, month, day) of day `days` since 1970-01-01.
pub open spec fn civil_date(days: int) -> (int, int, int) {
    choose|y: int, m: int, d: int| is_date(y, m, d) && day_number(y, m, d) == days
}

/// The abbreviated English name of month `m`.
pub open spec fn month_abbreviation(m: int) -> Seq<char> {
    if m == 1 { "Jan"@ } else if m == 2 { "Feb"@ } else if m == 3 { "Mar"@ } else if m == 4 { "Apr"@ }
    else if m == 5 { "May"@ } else if m == 6 { "Jun"@ } else if m == 7 { "Jul"@ }
    else if m == 8 { "Aug"@ } else if m == 9 { "Sep"@ } else if m == 10 { "Oct"@ }
    else if m == 11 { "Nov"@ } else { "Dec"@ }
}

/// `s` padded on the left with `pad` up to `width` characters.
pub open spec fn pad_left(s: Seq<char>, width: int, pad: char) -> Seq<char> {
    if s.len() < width {
        Seq::new((width - s.len()) as nat, |i: int| pad) + s
    } else {
        s
    }
}

/// A number below 100 in two characters, padded with `pad`.
pub open spec fn two_digits(n: int, pad: char) -> Seq<char> {
    pad_left(decimal(n as nat), 2, pad)
}

/// A year as chrono's `%Y` writes it: four digits padded with zeros for the years
/// 0 to 9999, otherwise a sign and at least four digits.
pub open spec fn year_text(y: int) -> Seq<char> {
    if 0 <= y <= 9999 {
        pad_left(decimal(y as nat), 4, '0')
    } else if y < 0 {
        seq!['-'] + pad_left(decimal((-y) as nat), 4, '0')
    } else {
        seq!['+'] + pad_left(decimal(y as nat), 4, '0')
    }
}

/// The date of the UNIX timestamp `secs`, as `%e %b %Y`: the day padded with a
/// space to two characters, the month's abbreviation and the year.
pub open spec fn date_text(secs: int) -> Seq<char> {
    let (y, m, d) = civil_date(secs / 86400);
    two_digits(d, ' ') + seq![' '] + month_abbreviation(m) + seq![' '] + year_text(y)
}

/// The time of day of the UNIX timestamp `secs`, as `%H:%M:%S`.
pub open spec fn time_text(secs: int) -> Seq<char> {
    let t = secs % 86400;
    two_digits(t / 3600, '0') + seq![':'] + two_digits((t / 60) % 60, '0') + seq![':']
        + two_digits(t % 60, '0')
}

/// The date of `secs`, and with `timestamp_format` its time of day after a space.
pub open spec fn formatted_time(secs: int, fmt: Seq<char>) -> Seq<char> {
    if fmt == timestamp_format() {
        date_text(secs) + seq![' '] + time_text(secs)
    } else {
        date_text(secs)
    }
}

/// Formats a UNIX timestamp in UTC.
///
/// Trusted wrapper around `chrono::DateTime::from_timestamp(secs, 0)`, `naive_utc`
/// and `format(fmt)`. chrono returns `None` exactly for timestamps outside its
/// calendar, which its source bounds by the years -262143 and 262142. The
/// proleptic Gregorian date of the day `secs / 86400` (rounded down) is written as
/// chrono's formatter writes `%e` (two characters, space-padded), `%b` (the
/// English abbreviation) and `%Y` (`write_year`: four zero-padded digits for the
/// years 0 to 9999, a sign otherwise); `%H`, `%M` and `%S` are the zero-padded
/// hour, minute and second of `secs % 86400`.
#[verifier::external_body]
fn format_utc(secs: i64, fmt: &str) -> (r: Option<String>)
    requires
        fmt@ == date_format() || fmt@ == timestamp_format(),
    ensures
        r is Some <==> MIN_TIMESTAMP <= secs <= MAX_TIMESTAMP,
        r matches Some(s) ==> s@ == formatted_time(secs as int, fmt@),
{
    chrono::DateTime::from_timestamp(secs, 0).map(|t| t.naive_utc().format(fmt).to_string())
}

/// The date of a UNIX timestamp, such as ` 5 Jan 2021`.
pub fn format_date(unix_timestamp: i64) -> (s: String)
    requires
        MIN_TIMESTAMP <= unix_timestamp <= MAX_TIMESTAMP,
    ensures
        s@ == date_text(unix_timestamp as int),
{
    proof {
        reveal_strlit("%e %b %Y");
        reveal_strlit("%e %b %Y %H:%M:%S");
        assert(date_format().len() != timestamp_format().len());
    }
    match format_utc(unix_timestamp, "%e %b %Y") {
        Some(s) => s,
        None => String::new(),
    }
}

/// The date and time of a UNIX timestamp, such as ` 5 Jan 2021 13:04:00`.
pub fn format_timestamp(unix_timestamp: i64) -> (s: String)
    requires
        MIN_TIMESTAMP <= unix_timestamp <= MAX_TIMESTAMP,
    ensures
        s@ == date_text(unix_timestamp as int) + seq![' '] + time_text(unix_timestamp as int),
{
    match format_utc(unix_timestamp, "%e %b %Y %H:%M:%S") {
        Some(s) => s,
        None => String::new(),
    }
}

/// The date and time of a timestamp starts with its date: the text of
/// `format_timestamp` is that of `format_date`, a space and the time of day.
pub proof fn lemma_timestamp_extends_date(secs: int)
    ensures
        formatted_time(secs, timestamp_format()) == formatted_time(secs, date_format()) + seq![' ']
            + time_text(secs),
{
    reveal_strlit("%e %b %Y");
    reveal_strlit("%e %b %Y %H:%M:%S");
    assert(date_format().len() != timestamp_format().len());
}

/// Timestamps of the same UTC day have the same date.
pub proof fn lemma_date_of_same_day(a: int, b: int)
    requires
        a / 86400 == b / 86400,
    ensures
        date_text(a) == date_text(b),
{
}


/// The first day of year `y`, counted from 1970-01-01.
pub open spec fn year_start(y: int) -> int {
    day_number(y, 1, 1)
}

/// The number of days of year `y`.
pub open spec fn days_in_year(y: int) -> int {
    if is_leap_year(y) { 366 } else { 365 }
}

proof fn lemma_year_length(y: int)
    ensures
        year_start(y + 1) == year_start(y) + days_in_year(y),
{
    assert(y / 4 - (y - 1) / 4 == if y % 4 == 0 { 1int } else { 0 });
    assert(y / 100 - (y - 1) / 100 == if y % 100 == 0 { 1int } else { 0 });
    assert(y / 400 - (y - 1) / 400 == if y % 400 == 0 { 1int } else { 0 });
}

proof fn lemma_date_in_year(y: int, m: int, d: int)
    requires
        is_date(y, m, d),
    ensures
        year_start(y) <= day_number(y, m, d) < year_start(y) + days_in_year(y),
{
}

proof fn lemma_year_start_monotone(a: int, b: int)
    requires
        a < b,
    ensures
        year_start(a) + days_in_year(a) <= year_start(b),
    decreases b - a,
{
    lemma_year_length(a);
    if a + 1 < b {
        lemma_year_start_monotone(a + 1, b);
    }
}

/// A day has at most one date.
pub proof fn lemma_date_unique(y1: int, m1: int, d1: int, y2: int, m2: int, d2: int)
    requires
        is_date(y1, m1, d1),
        is_date(y2, m2, d2),
        day_number(y1, m1, d1) == day_number(y2, m2, d2),
    ensures
        y1 == y2 && m1 == m2 && d1 == d2,
{
    lemma_date_in_year(y1, m1, d1);
    lemma_date_in_year(y2, m2, d2);
    if y1 < y2 {
        lemma_year_start_monotone(y1, y2);
    } else if y2 < y1 {
        lemma_year_start_monotone(y2, y1);
    }
}

proof fn lemma_year_of_day(days: int, y0: int) -> (y: int)
    ensures
        year_start(y) <= days < year_start(y) + days_in_year(y),
    decreases (if days < year_start(y0) { year_start(y0) - days } else { days - year_start(y0) }),
{
    lemma_year_length(y0);
    lemma_year_length(y0 - 1);
    if days < year_start(y0) {
        if days >= year_start(y0 - 1) {
            y0 - 1
        } else {
            lemma_year_of_day(days, y0 - 1)
        }
    } else if days >= year_start(y0) + days_in_year(y0) {
        lemma_year_of_day(days, y0 + 1)
    } else {
        y0
    }
}

/// Every day has a date: `civil_date` is that date.
pub proof fn lemma_civil_date(days: int)
    ensures
        is_date(civil_date(days).0, civil_date(days).1, civil_date(days).2),
        day_number(civil_date(days).0, civil_date(days).1, civil_date(days).2) == days,
{
    let y = lemma_year_of_day(days, 1970);
    let o = days - year_start(y);
    let m: int = if o < days_before_month(y, 2) { 1 } else if o < days_before_month(y, 3) { 2 }
        else if o < days_before_month(y, 4) { 3 } else if o < days_before_month(y, 5) { 4 }
        else if o < days_before_month(y, 6) { 5 } else if o < days_before_month(y, 7) { 6 }
        else if o < days_before_month(y, 8) { 7 } else if o < days_before_month(y, 9) { 8 }
        else if o < days_before_month(y, 10) { 9 } else if o < days_before_month(y, 11) { 10 }
        else if o < days_before_month(y, 12) { 11 } else { 12 };
    let d = o - days_before_month(y, m) + 1;
    assert(is_date(y, m, d) && day_number(y, m, d) == days);
}

} // verus!
