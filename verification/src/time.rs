//! Calendar arithmetic and timestamp formatting.
//!
//! The caller supplies the current time as plain seconds since the
//! epoch; everything from there — the Gregorian date, the time of
//! day, and the two timestamp forms the log subsystem uses (one for
//! file names, one for the session header) — is computed and proved
//! here.

use vstd::prelude::*;
use crate::text::string_from_chars;

verus! {

/// A civil date and time of day.
pub struct TimeParts {
    pub year: u64,
    pub month: u64,
    pub day: u64,
    pub hour: u64,
    pub minute: u64,
    pub second: u64,
}

pub open spec fn is_leap_year(y: int) -> bool {
    y % 4 == 0 && (y % 100 != 0 || y % 400 == 0)
}

pub open spec fn days_in_year(y: int) -> int {
    if is_leap_year(y) {
        366
    } else {
        365
    }
}

pub open spec fn days_in_month(y: int, m: int) -> int {
    if m == 2 {
        if is_leap_year(y) {
            29
        } else {
            28
        }
    } else if m == 4 || m == 6 || m == 9 || m == 11 {
        30
    } else {
        31
    }
}

/// Days from the epoch to the start of year `y`.
pub open spec fn days_before_year(y: int) -> int
    decreases y,
{
    if y <= 1970 {
        0
    } else {
        days_before_year(y - 1) + days_in_year(y - 1)
    }
}

/// Days from the start of the year to the start of month `m`.
pub open spec fn days_before_month(y: int, m: int) -> int
    decreases m,
{
    if m <= 1 {
        0
    } else {
        days_before_month(y, m - 1) + days_in_month(y, m - 1)
    }
}

/// Days from the epoch to the given civil date.
pub open spec fn epoch_days(y: int, m: int, d: int) -> int {
    days_before_year(y) + days_before_month(y, m) + (d - 1)
}

/// The fields form a real calendar date and time of day, at or after
/// the epoch.
pub open spec fn valid_parts(p: TimeParts) -> bool {
    &&& 1970 <= p.year
    &&& 1 <= p.month <= 12
    &&& 1 <= p.day <= days_in_month(p.year as int, p.month as int)
    &&& p.hour < 24
    &&& p.minute < 60
    &&& p.second < 60
}

/// The seconds since the epoch that the fields denote.
pub open spec fn parts_to_secs(p: TimeParts) -> int {
    86400 * epoch_days(p.year as int, p.month as int, p.day as int) + 3600 * (p.hour as int) + 60
        * (p.minute as int) + (p.second as int)
}

proof fn lemma_days_before_year_bounds(y: int)
    requires
        y >= 1970,
    ensures
        365 * (y - 1970) <= days_before_year(y) <= 366 * (y - 1970),
    decreases y,
{
    if y > 1970 {
        lemma_days_before_year_bounds(y - 1);
    }
}

fn year_len(y: u64) -> (r: u64)
    ensures
        r == days_in_year(y as int),
{
    if y % 4 == 0 && (y % 100 != 0 || y % 400 == 0) {
        366
    } else {
        365
    }
}

fn month_len(y: u64, m: u64) -> (r: u64)
    ensures
        r == days_in_month(y as int, m as int),
{
    if m == 2 {
        if y % 4 == 0 && (y % 100 != 0 || y % 400 == 0) {
            29
        } else {
            28
        }
    } else if m == 4 || m == 6 || m == 9 || m == 11 {
        30
    } else {
        31
    }
}

/// The civil date that lies the given number of days after the epoch.
pub fn civil_from_days(days: u64) -> (r: (u64, u64, u64))
    requires
        days <= 100_000_000_000,
    ensures
        1970 <= r.0,
        1 <= r.1 <= 12,
        1 <= r.2 <= days_in_month(r.0 as int, r.1 as int),
        epoch_days(r.0 as int, r.1 as int, r.2 as int) == days,
{
    let mut y: u64 = 1970;
    let mut rem: u64 = days;
    let mut len = year_len(y);
    while rem >= len
        invariant
            1970 <= y,
            days <= 100_000_000_000,
            days_before_year(y as int) + rem == days,
            len == days_in_year(y as int),
            y <= 1970 + days,
        decreases rem,
    {
        rem = rem - len;
        y = y + 1;
        proof {
            lemma_days_before_year_bounds(y as int);
        }
        len = year_len(y);
    }
    let mut m: u64 = 1;
    let mut mlen = month_len(y, m);
    proof {
        reveal_with_fuel(days_before_month, 14);
        assert(days_before_month(y as int, 13) == days_in_year(y as int));
    }
    while rem >= mlen
        invariant
            1 <= m <= 12,
            days_before_year(y as int) + days_before_month(y as int, m as int) + rem == days,
            days_before_month(y as int, m as int) + rem < days_in_year(y as int),
            mlen == days_in_month(y as int, m as int),
            days_before_month(y as int, 13) == days_in_year(y as int),
        decreases rem,
    {
        proof {
            reveal_with_fuel(days_before_month, 14);
            if m == 12 {
                assert(days_before_month(y as int, 13) == days_before_month(y as int, 12)
                    + days_in_month(y as int, 12));
                assert(false);
            }
        }
        rem = rem - mlen;
        m = m + 1;
        mlen = month_len(y, m);
    }
    (y, m, rem + 1)
}

/// Splits a number of seconds within one day into hours, minutes,
/// and seconds.
pub fn clock_of_day(sod: u64) -> (r: (u64, u64, u64))
    requires
        sod < 86400,
    ensures
        r.0 < 24,
        r.1 < 60,
        r.2 < 60,
        3600 * r.0 + 60 * r.1 + r.2 == sod,
{
    let h = sod / 3600;
    let rest = sod % 3600;
    let mi = rest / 60;
    let s = rest % 60;
    (h, mi, s)
}

/// The civil date and time of day denoted by a count of seconds
/// since the epoch.
pub fn parts_from_epoch(secs: u64) -> (r: TimeParts)
    requires
        secs <= 8_000_000_000_000_000,
    ensures
        valid_parts(r),
        parts_to_secs(r) == secs,
{
    let days = secs / 86400;
    let sod = secs % 86400;
    let (y, m, d) = civil_from_days(days);
    let (h, mi, s) = clock_of_day(sod);
    let r = TimeParts { year: y, month: m, day: d, hour: h, minute: mi, second: s };
    proof {
        assert(secs == 86400 * (secs as int / 86400) + (secs as int % 86400));
    }
    r
}

/// A decimal digit as a character.
pub open spec fn dec_digit(d: int) -> char {
    if d == 0 {
        '0'
    } else if d == 1 {
        '1'
    } else if d == 2 {
        '2'
    } else if d == 3 {
        '3'
    } else if d == 4 {
        '4'
    } else if d == 5 {
        '5'
    } else if d == 6 {
        '6'
    } else if d == 7 {
        '7'
    } else if d == 8 {
        '8'
    } else {
        '9'
    }
}

fn digit_char(d: u64) -> (r: char)
    requires
        d < 10,
    ensures
        r == dec_digit(d as int),
{
    if d == 0 {
        '0'
    } else if d == 1 {
        '1'
    } else if d == 2 {
        '2'
    } else if d == 3 {
        '3'
    } else if d == 4 {
        '4'
    } else if d == 5 {
        '5'
    } else if d == 6 {
        '6'
    } else if d == 7 {
        '7'
    } else if d == 8 {
        '8'
    } else {
        '9'
    }
}

/// A value below 100 as two zero-padded decimal digits.
pub open spec fn two_digit_spec(n: int) -> Seq<char> {
    seq![dec_digit(n / 10), dec_digit(n % 10)]
}

/// A value below 10000 as four zero-padded decimal digits.
pub open spec fn four_digit_spec(n: int) -> Seq<char> {
    seq![
        dec_digit(n / 1000),
        dec_digit((n / 100) % 10),
        dec_digit((n / 10) % 10),
        dec_digit(n % 10),
    ]
}

fn push_two_digits(out: &mut Vec<char>, n: u64)
    requires
        n < 100,
    ensures
        final(out)@ == old(out)@ + two_digit_spec(n as int),
{
    out.push(digit_char(n / 10));
    out.push(digit_char(n % 10));
    proof {
        assert(final(out)@ =~= old(out)@ + two_digit_spec(n as int));
    }
}

fn push_four_digits(out: &mut Vec<char>, n: u64)
    requires
        n < 10000,
    ensures
        final(out)@ == old(out)@ + four_digit_spec(n as int),
{
    out.push(digit_char(n / 1000));
    out.push(digit_char((n / 100) % 10));
    out.push(digit_char((n / 10) % 10));
    out.push(digit_char(n % 10));
    proof {
        assert(final(out)@ =~= old(out)@ + four_digit_spec(n as int));
    }
}

/// The timestamp form used in log file names:
/// `YYYY-MM-DD_HH-MM-SS`.
pub open spec fn file_timestamp_spec(p: TimeParts) -> Seq<char> {
    four_digit_spec(p.year as int) + seq!['-'] + two_digit_spec(p.month as int) + seq!['-']
        + two_digit_spec(p.day as int) + seq!['_'] + two_digit_spec(p.hour as int) + seq!['-']
        + two_digit_spec(p.minute as int) + seq!['-'] + two_digit_spec(p.second as int)
}

/// The timestamp form used in the session header:
/// `YYYY-MM-DD HH:MM:SS`.
pub open spec fn header_timestamp_spec(p: TimeParts) -> Seq<char> {
    four_digit_spec(p.year as int) + seq!['-'] + two_digit_spec(p.month as int) + seq!['-']
        + two_digit_spec(p.day as int) + seq![' '] + two_digit_spec(p.hour as int) + seq![':']
        + two_digit_spec(p.minute as int) + seq![':'] + two_digit_spec(p.second as int)
}

/// Formats a timestamp to second granularity for use in a log file
/// name.
pub fn file_timestamp(p: &TimeParts) -> (r: String)
    requires
        p.year < 10000,
        p.month < 100,
        p.day < 100,
        p.hour < 100,
        p.minute < 100,
        p.second < 100,
    ensures
        r@ == file_timestamp_spec(*p),
{
    let mut out: Vec<char> = Vec::new();
    push_four_digits(&mut out, p.year);
    out.push('-');
    push_two_digits(&mut out, p.month);
    out.push('-');
    push_two_digits(&mut out, p.day);
    out.push('_');
    push_two_digits(&mut out, p.hour);
    out.push('-');
    push_two_digits(&mut out, p.minute);
    out.push('-');
    push_two_digits(&mut out, p.second);
    proof {
        assert(out@ =~= file_timestamp_spec(*p));
    }
    string_from_chars(&out)
}

/// Formats a timestamp to second granularity for the session header.
pub fn header_timestamp(p: &TimeParts) -> (r: String)
    requires
        p.year < 10000,
        p.month < 100,
        p.day < 100,
        p.hour < 100,
        p.minute < 100,
        p.second < 100,
    ensures
        r@ == header_timestamp_spec(*p),
{
    let mut out: Vec<char> = Vec::new();
    push_four_digits(&mut out, p.year);
    out.push('-');
    push_two_digits(&mut out, p.month);
    out.push('-');
    push_two_digits(&mut out, p.day);
    out.push(' ');
    push_two_digits(&mut out, p.hour);
    out.push(':');
    push_two_digits(&mut out, p.minute);
    out.push(':');
    push_two_digits(&mut out, p.second);
    proof {
        assert(out@ =~= header_timestamp_spec(*p));
    }
    string_from_chars(&out)
}

} // verus!
