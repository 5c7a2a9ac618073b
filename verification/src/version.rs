//! The version text: the package version, with the commit and the build date
//! where they are known.
use vstd::prelude::*;
use crate::text;

verus! {

/// Whether `y` is a leap year of the Gregorian calendar.
pub open spec fn leap(y: int) -> bool {
    (y % 4 == 0 && y % 100 != 0) || y % 400 == 0
}

/// The number of days of the year `y`.
pub open spec fn year_days(y: int) -> int {
    if leap(y) { 366 } else { 365 }
}

/// The year that holds the `days`-th day (from 0) counted from the start of
/// `year`, and the day's index within that year.
pub open spec fn year_and_day(days: nat, year: int) -> (int, int)
    decreases days,
{
    if days < year_days(year) {
        (year, days as int)
    } else {
        year_and_day((days - year_days(year)) as nat, year + 1)
    }
}

/// The number of days of month `m` (1 to 12), in a leap year or not.
pub open spec fn month_days(m: int, leap_year: bool) -> int {
    if m == 2 {
        if leap_year { 29 } else { 28 }
    } else if m == 4 || m == 6 || m == 9 || m == 11 {
        30
    } else {
        31
    }
}

/// The month that holds the `day`-th day (from 0) counted from the start of
/// month `m`, and the day's index within it; past December the count stops at 13.
pub open spec fn month_and_day(day: int, m: int, leap_year: bool) -> (int, int)
    decreases 13 - m,
{
    if m >= 13 || day < month_days(m, leap_year) {
        (m, day)
    } else {
        month_and_day(day - month_days(m, leap_year), m + 1, leap_year)
    }
}

/// The calendar date (year, month, day of month) of the day that holds the
/// second `secs` after the start of 1970 (UTC).
pub open spec fn date_of(secs: nat) -> (int, int, int) {
    let (y, d) = year_and_day(secs / 86400, 1970);
    let (m, dd) = month_and_day(d, 1, leap(y));
    (y, m, dd + 1)
}

/// Whether `y` is a leap year.
pub fn is_leap(y: i32) -> (r: bool)
    ensures
        r == leap(y as int),
{
    (y % 4 == 0 && y % 100 != 0) || y % 400 == 0
}

fn year_length(y: i32) -> (r: i32)
    ensures
        r == year_days(y as int),
{
    if is_leap(y) { 366 } else { 365 }
}

fn month_length(m: u32, leap_year: bool) -> (r: i32)
    ensures
        r == month_days(m as int, leap_year),
{
    if m == 2 {
        if leap_year { 29 } else { 28 }
    } else if m == 4 || m == 6 || m == 9 || m == 11 {
        30
    } else {
        31
    }
}

/// The calendar date of the day that holds the second `secs` after the start
/// of 1970 (UTC), as (year, month, day). The day count must fit an `i32`.
pub fn ymd_from_epoch(secs: u64) -> (r: (i32, u32, u32))
    requires
        secs / 86400 <= i32::MAX,
    ensures
        (r.0 as int, r.1 as int, r.2 as int) == date_of(secs as nat),
        r.0 >= 1970,
{
    let total: i32 = (secs / 86400) as i32;
    let mut days: i32 = total;
    let mut year: i32 = 1970;
    while days >= year_length(year)
        invariant
            0 <= days <= total,
            1970 <= year,
            (year - 1970) * 365 <= total - days,
            year_and_day((secs / 86400) as nat, 1970) == year_and_day(days as nat, year as int),
        decreases days,
    {
        days = days - year_length(year);
        year = year + 1;
    }
    let lp = is_leap(year);
    let ghost doy = days as int;
    let mut month: u32 = 1;
    while month <= 12 && days >= month_length(month, lp)
        invariant
            1 <= month <= 13,
            0 <= days <= doy,
            lp == leap(year as int),
            month_and_day(doy, 1, lp) == month_and_day(days as int, month as int, lp),
        decreases 13 - month,
    {
        days = days - month_length(month, lp);
        month = month + 1;
    }
    (year, month, days as u32 + 1)
}

/// `n` in decimal, padded with leading zeros to `width` digits.
pub open spec fn zero_padded(n: nat, width: nat) -> Seq<char> {
    let d = text::decimal(n);
    if d.len() < width { Seq::new((width - d.len()) as nat, |i: int| '0') + d } else { d }
}

fn push_zero_padded(s: &mut String, n: u64, width: usize)
    ensures
        final(s)@ == old(s)@ + zero_padded(n as nat, width as nat),
{
    let d = text::decimal_string(n);
    let len = d.unicode_len();
    let ghost s0 = s@;
    if len < width {
        let mut k: usize = 0;
        while k < width - len
            invariant
                len == text::decimal(n as nat).len(),
                len < width,
                k <= width - len,
                s@ == s0 + Seq::new(k as nat, |i: int| '0'),
            decreases width - len - k,
        {
            text::push_char(s, '0');
            k = k + 1;
            assert(s@ =~= s0 + Seq::new(k as nat, |i: int| '0'));
        }
    }
    s.append(d.as_str());
    assert(s@ =~= s0 + zero_padded(n as nat, width as nat));
}

/// A date as `YYYY-MM-DD` (each part zero-padded to at least that many digits).
pub open spec fn date_text(y: nat, m: nat, d: nat) -> Seq<char> {
    zero_padded(y, 4) + "-"@ + zero_padded(m, 2) + "-"@ + zero_padded(d, 2)
}

/// The build date of a build made `secs` seconds after the start of 1970, as `YYYY-MM-DD`.
pub fn build_date(secs: u64) -> (res: String)
    requires
        secs / 86400 <= i32::MAX,
    ensures
        ({
            let (y, m, d) = date_of(secs as nat);
            res@ == date_text(y as nat, m as nat, d as nat)
        }),
{
    let (y, m, d) = ymd_from_epoch(secs);
    let mut t = String::new();
    push_zero_padded(&mut t, y as u64, 4);
    t.append("-");
    push_zero_padded(&mut t, m as u64, 2);
    t.append("-");
    push_zero_padded(&mut t, d as u64, 2);
    assert(t@ =~= date_text(y as nat, m as nat, d as nat));
    t
}

/// The version text: `version (hash date)`, or `version (date)` where there is
/// no commit hash or it is blank (the hash is trimmed of white space).
pub open spec fn version_text(version: Seq<char>, hash: Option<Seq<char>>, date: Seq<char>) -> Seq<char> {
    match hash {
        Some(h) => if text::trimmed(h).len() > 0 {
            version + " ("@ + text::trimmed(h) + " "@ + date + ")"@
        } else {
            version + " ("@ + date + ")"@
        },
        None => version + " ("@ + date + ")"@,
    }
}

/// The full version text of a build: its package version, commit hash and build date.
pub fn full_version(version: &str, hash: Option<&str>, date: &str) -> (res: String)
    ensures
        res@ == version_text(
            version@,
            match hash {
                Some(h) => Some(h@),
                None => None,
            },
            date@,
        ),
{
    let mut t = String::from_str(version);
    t.append(" (");
    match hash {
        Some(h) => {
            let th = text::trim(h);
            if th.unicode_len() > 0 {
                t.append(th.as_str());
                t.append(" ");
            }
        },
        None => {},
    }
    t.append(date);
    t.append(")");
    t
}

/// The days from the start of month `m` to the end of the year.
pub open spec fn days_from_month(m: int, leap_year: bool) -> int
    decreases 13 - m,
{
    if m >= 13 { 0 } else { month_days(m, leap_year) + days_from_month(m + 1, leap_year) }
}

proof fn lemma_year_and_day_in_year(days: nat, year: int)
    ensures
        year_and_day(days, year).0 >= year,
        0 <= year_and_day(days, year).1 < year_days(year_and_day(days, year).0),
    decreases days,
{
    if days >= year_days(year) {
        lemma_year_and_day_in_year((days - year_days(year)) as nat, year + 1);
    }
}

proof fn lemma_month_and_day_in_month(day: int, m: int, leap_year: bool)
    requires
        1 <= m <= 12,
        0 <= day < days_from_month(m, leap_year),
    ensures
        1 <= month_and_day(day, m, leap_year).0 <= 12,
        0 <= month_and_day(day, m, leap_year).1 < month_days(
            month_and_day(day, m, leap_year).0,
            leap_year,
        ),
    decreases 13 - m,
{
    if day >= month_days(m, leap_year) {
        if m == 12 {
            assert(days_from_month(13, leap_year) == 0);
        } else {
            lemma_month_and_day_in_month(day - month_days(m, leap_year), m + 1, leap_year);
        }
    }
}

/// Every count of seconds since 1970 falls on a real date: a month from 1 to
/// 12 and a day within that month's length, in 1970 or later.
pub proof fn law_date_is_a_date(secs: nat)
    ensures
        date_of(secs).0 >= 1970,
        1 <= date_of(secs).1 <= 12,
        1 <= date_of(secs).2 <= month_days(date_of(secs).1, leap(date_of(secs).0)),
{
    let (y, d) = year_and_day(secs / 86400, 1970);
    lemma_year_and_day_in_year(secs / 86400, 1970);
    reveal_with_fuel(days_from_month, 13);
    assert(days_from_month(1, leap(y)) == year_days(y));
    lemma_month_and_day_in_month(d, 1, leap(y));
}

} // verus!
