//! Set-date parsing: strict `MM/DD/YYYY` and `YYYY-MM-DD` forms, each
//! anchored to midnight UTC and rendered as seconds since the Unix epoch.

use vstd::prelude::*;
use crate::text::{is_digit, to_chars};

verus! {

/// Whether `y` is a leap year in the proleptic Gregorian calendar.
pub open spec fn is_leap(y: int) -> bool {
    y % 4 == 0 && (y % 100 != 0 || y % 400 == 0)
}

pub open spec fn days_in_year(y: int) -> int {
    if is_leap(y) {
        366
    } else {
        365
    }
}

pub open spec fn days_in_month(y: int, m: int) -> int {
    if m == 2 {
        if is_leap(y) {
            29
        } else {
            28
        }
    } else if m == 4 || m == 6 || m == 9 || m == 11 {
        30
    } else {
        31
    }
}

/// Days in all years before `y`, counted from year 0.
pub open spec fn days_before_year(y: int) -> int
    decreases y when y >= 0
{
    if y <= 0 {
        0
    } else {
        days_before_year(y - 1) + days_in_year(y - 1)
    }
}

/// Days in the months of year `y` before month `m`.
pub open spec fn days_before_month(y: int, m: int) -> int
    decreases m when m >= 1
{
    if m <= 1 {
        0
    } else {
        days_before_month(y, m - 1) + days_in_month(y, m - 1)
    }
}

/// A calendar date this crate accepts: a four-digit year and a real
/// month/day combination.
pub open spec fn valid_date(y: int, m: int, d: int) -> bool {
    0 <= y <= 9999 && 1 <= m <= 12 && 1 <= d <= days_in_month(y, m)
}

/// Days between 1970-01-01 and the given date (negative before the epoch).
pub open spec fn epoch_days(y: int, m: int, d: int) -> int {
    days_before_year(y) - days_before_year(1970) + days_before_month(y, m) + (d - 1)
}

/// Seconds since the Unix epoch at midnight UTC of the given date.
pub open spec fn midnight_ts(y: int, m: int, d: int) -> int {
    epoch_days(y, m, d) * 86400
}

pub proof fn lemma_days_before_year_bound(y: int)
    requires
        y >= 0,
    ensures
        365 * y <= days_before_year(y) <= 366 * y,
    decreases y,
{
    if y > 0 {
        lemma_days_before_year_bound(y - 1);
    }
}

pub proof fn lemma_days_before_month_bound(y: int, m: int)
    requires
        1 <= m <= 13,
    ensures
        0 <= days_before_month(y, m) <= 31 * (m - 1),
    decreases m,
{
    if m > 1 {
        lemma_days_before_month_bound(y, m - 1);
    }
}

fn is_leap_ex(y: u32) -> (r: bool)
    ensures
        r == is_leap(y as int),
{
    y % 4 == 0 && (y % 100 != 0 || y % 400 == 0)
}

fn days_in_month_ex(y: u32, m: u32) -> (r: u32)
    ensures
        r == days_in_month(y as int, m as int),
{
    if m == 2 {
        if is_leap_ex(y) {
            29
        } else {
            28
        }
    } else if m == 4 || m == 6 || m == 9 || m == 11 {
        30
    } else {
        31
    }
}

fn days_before_year_ex(y: u32) -> (r: u64)
    requires
        y <= 10000,
    ensures
        r == days_before_year(y as int),
        r <= 366 * (y as u64),
{
    let mut acc: u64 = 0;
    let mut i: u32 = 0;
    while i < y
        invariant
            i <= y <= 10000,
            acc == days_before_year(i as int),
            acc <= 366 * (i as u64),
        decreases y - i,
    {
        if is_leap_ex(i) {
            acc = acc + 366;
        } else {
            acc = acc + 365;
        }
        i = i + 1;
    }
    acc
}

fn days_before_month_ex(y: u32, m: u32) -> (r: u32)
    requires
        1 <= m <= 12,
    ensures
        r == days_before_month(y as int, m as int),
        r <= 372,
{
    let mut acc: u32 = 0;
    let mut i: u32 = 1;
    while i < m
        invariant
            1 <= i <= m <= 12,
            acc == days_before_month(y as int, i as int),
            acc <= 31 * (i as u32 - 1),
        decreases m - i,
    {
        proof {
            lemma_days_before_month_bound(y as int, i as int + 1);
        }
        acc = acc + days_in_month_ex(y, i);
        i = i + 1;
    }
    acc
}

fn valid_date_ex(y: u32, m: u32, d: u32) -> (r: bool)
    ensures
        r == valid_date(y as int, m as int, d as int),
{
    y <= 9999 && 1 <= m && m <= 12 && 1 <= d && d <= days_in_month_ex(y, m)
}

/// The timestamp of midnight UTC on a valid date.
fn midnight_ts_ex(y: u32, m: u32, d: u32) -> (r: i64)
    requires
        valid_date(y as int, m as int, d as int),
    ensures
        r == midnight_ts(y as int, m as int, d as int),
{
    proof {
        lemma_days_before_year_bound(y as int);
        lemma_days_before_year_bound(1970);
        lemma_days_before_month_bound(y as int, m as int);
    }
    let a = days_before_year_ex(y);
    let e = days_before_year_ex(1970);
    let b = days_before_month_ex(y, m);
    let days: i64 = (a as i64) - (e as i64) + (b as i64) + (d as i64) - 1;
    days * 86400
}

/// The numeric value of a digit character.
pub open spec fn dval(c: char) -> int {
    (c as u32) - 48
}

fn dval_ex(c: char) -> (r: u32)
    requires
        is_digit(c),
    ensures
        r == dval(c),
        r <= 9,
{
    (c as u32) - 48
}

/// Strict `MM/DD/YYYY` parse: exactly ten characters, two-digit month and
/// day, four-digit year, and a real calendar date.
pub open spec fn parse_mdy(s: Seq<char>) -> Option<(int, int, int)> {
    if s.len() == 10 && is_digit(s[0]) && is_digit(s[1]) && s[2] == '/' && is_digit(s[3])
        && is_digit(s[4]) && s[5] == '/' && is_digit(s[6]) && is_digit(s[7]) && is_digit(s[8])
        && is_digit(s[9]) {
        let m = 10 * dval(s[0]) + dval(s[1]);
        let d = 10 * dval(s[3]) + dval(s[4]);
        let y = 1000 * dval(s[6]) + 100 * dval(s[7]) + 10 * dval(s[8]) + dval(s[9]);
        if valid_date(y, m, d) {
            Some((y, m, d))
        } else {
            None
        }
    } else {
        None
    }
}

/// Strict `YYYY-MM-DD` parse.
pub open spec fn parse_ymd(s: Seq<char>) -> Option<(int, int, int)> {
    if s.len() == 10 && is_digit(s[0]) && is_digit(s[1]) && is_digit(s[2]) && is_digit(s[3])
        && s[4] == '-' && is_digit(s[5]) && is_digit(s[6]) && s[7] == '-' && is_digit(s[8])
        && is_digit(s[9]) {
        let y = 1000 * dval(s[0]) + 100 * dval(s[1]) + 10 * dval(s[2]) + dval(s[3]);
        let m = 10 * dval(s[5]) + dval(s[6]);
        let d = 10 * dval(s[8]) + dval(s[9]);
        if valid_date(y, m, d) {
            Some((y, m, d))
        } else {
            None
        }
    } else {
        None
    }
}

/// What a set-date token denotes: the first format that parses wins.
pub open spec fn date_value(s: Seq<char>) -> Option<int> {
    match parse_mdy(s) {
        Some((y, m, d)) => Some(midnight_ts(y, m, d)),
        None => match parse_ymd(s) {
            Some((y, m, d)) => Some(midnight_ts(y, m, d)),
            None => None,
        },
    }
}

/// Parses a set-date token in `MM/DD/YYYY` or `YYYY-MM-DD` form to the
/// timestamp of midnight UTC on that date.
pub fn parse_set_date(date_str: &str) -> (r: Option<i64>)
    ensures
        match r {
            Some(t) => date_value(date_str@) == Some(t as int),
            None => date_value(date_str@) is None,
        },
{
    let v = to_chars(date_str);
    if v.len() != 10 {
        return None;
    }
    let all_digit_mdy = digit_at(&v, 0) && digit_at(&v, 1) && digit_at(&v, 3) && digit_at(&v, 4)
        && digit_at(&v, 6) && digit_at(&v, 7) && digit_at(&v, 8) && digit_at(&v, 9);
    if all_digit_mdy && v[2] == '/' && v[5] == '/' {
        let m = 10 * dval_ex(v[0]) + dval_ex(v[1]);
        let d = 10 * dval_ex(v[3]) + dval_ex(v[4]);
        let y = 1000 * dval_ex(v[6]) + 100 * dval_ex(v[7]) + 10 * dval_ex(v[8]) + dval_ex(v[9]);
        if valid_date_ex(y, m, d) {
            return Some(midnight_ts_ex(y, m, d));
        }
        // The slash at position 4 of this shape rules out the dashed form.
        return None;
    }
    let all_digit_ymd = digit_at(&v, 0) && digit_at(&v, 1) && digit_at(&v, 2) && digit_at(&v, 3)
        && digit_at(&v, 5) && digit_at(&v, 6) && digit_at(&v, 8) && digit_at(&v, 9);
    if all_digit_ymd && v[4] == '-' && v[7] == '-' {
        let y = 1000 * dval_ex(v[0]) + 100 * dval_ex(v[1]) + 10 * dval_ex(v[2]) + dval_ex(v[3]);
        let m = 10 * dval_ex(v[5]) + dval_ex(v[6]);
        let d = 10 * dval_ex(v[8]) + dval_ex(v[9]);
        if valid_date_ex(y, m, d) {
            return Some(midnight_ts_ex(y, m, d));
        }
        return None;
    }
    None
}

fn digit_at(v: &Vec<char>, i: usize) -> (r: bool)
    requires
        i < v.len(),
    ensures
        r == is_digit(v@[i as int]),
{
    '0' <= v[i] && v[i] <= '9'
}

/// The two accepted date formats denote the same instant: tokens in either
/// form that name the same calendar date parse to the same midnight-UTC
/// timestamp.
pub proof fn lemma_date_format_agreement(s1: Seq<char>, s2: Seq<char>, y: int, m: int, d: int)
    requires
        parse_mdy(s1) == Some((y, m, d)),
        parse_ymd(s2) == Some((y, m, d)),
    ensures
        date_value(s1) is Some,
        date_value(s1) == date_value(s2),
{
    assert(parse_mdy(s2) is None);
}

} // verus!
