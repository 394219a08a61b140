//! Civil dates of Unix times, and their RFC 3339 text (UTC).
use vstd::prelude::*;

use crate::text::{decimal, push_char, push_decimal};

verus! {

/// Gregorian leap year.
pub open spec fn is_leap(y: int) -> bool {
    (y % 4 == 0 && y % 100 != 0) || y % 400 == 0
}

/// Days in year `y`.
pub open spec fn year_len(y: int) -> int {
    if is_leap(y) {
        366
    } else {
        365
    }
}

/// Days in month `m` (1-based) of year `y`.
pub open spec fn month_len(y: int, m: int) -> int {
    if m == 2 {
        if is_leap(y) {
            29
        } else {
            28
        }
    } else if m == 4 || m == 6 || m == 9 || m == 11 {
        30
    } else {
        31
    }
}

/// Days from 1970-01-01 to the first day of year `y`.
pub open spec fn days_before_year(y: int) -> int
    decreases y - 1970,
{
    if y <= 1970 {
        0
    } else {
        days_before_year(y - 1) + year_len(y - 1)
    }
}

/// Days from the first day of year `y` to the first day of month `m`.
pub open spec fn days_before_month(y: int, m: int) -> int
    decreases m,
{
    if m <= 1 {
        0
    } else {
        days_before_month(y, m - 1) + month_len(y, m - 1)
    }
}

/// A date on or after 1970-01-01.
pub open spec fn valid_civil(y: int, m: int, d: int) -> bool {
    y >= 1970 && 1 <= m <= 12 && 1 <= d <= month_len(y, m)
}

/// Days from 1970-01-01 to the date.
pub open spec fn civil_days(y: int, m: int, d: int) -> int {
    days_before_year(y) + days_before_month(y, m) + d - 1
}

proof fn lemma_months_fill_year(y: int)
    ensures
        days_before_month(y, 13) == year_len(y),
{
    reveal_with_fuel(days_before_month, 13);
}

fn year_length(y: u64) -> (r: u64)
    ensures
        r == year_len(y as int),
{
    if (y % 4 == 0 && y % 100 != 0) || y % 400 == 0 {
        366
    } else {
        365
    }
}

fn month_length(y: u64, m: u64) -> (r: u64)
    ensures
        r == month_len(y as int, m as int),
{
    if m == 2 {
        if (y % 4 == 0 && y % 100 != 0) || y % 400 == 0 {
            29
        } else {
            28
        }
    } else if m == 4 || m == 6 || m == 9 || m == 11 {
        30
    } else {
        31
    }
}

/// The civil date (year, month, day) that is `days` days after 1970-01-01.
pub fn days_to_ymd(days: u64) -> (r: (u64, u64, u64))
    ensures
        (r.0 as int, r.1 as int, r.2 as int) == civil_of_days(days as int),
        valid_civil(r.0 as int, r.1 as int, r.2 as int),
        civil_days(r.0 as int, r.1 as int, r.2 as int) == days,
{
    let mut y: u64 = 1970;
    let mut rem: u64 = days;
    while rem >= year_length(y)
        invariant
            1970 <= y,
            (y - 1970) * 365 <= days - rem,
            rem <= days,
            days_before_year(y as int) + rem == days,
            civil_from(y as int, rem as int) == civil_of_days(days as int),
        decreases rem,
    {
        rem = rem - year_length(y);
        y = y + 1;
    }
    proof {
        lemma_months_fill_year(y as int);
    }
    let ghost in_year = rem;
    let mut m: u64 = 1;
    while m < 12 && rem >= month_length(y, m)
        invariant
            1 <= m <= 12,
            rem <= in_year,
            in_year < year_len(y as int),
            days_before_month(y as int, m as int) + rem == in_year,
            days_before_month(y as int, 13) == year_len(y as int),
            civil_in_year(y as int, m as int, rem as int) == civil_of_days(days as int),
        decreases 12 - m,
    {
        rem = rem - month_length(y, m);
        m = m + 1;
    }
    proof {
        if m == 12 {
            assert(days_before_month(y as int, 13) == days_before_month(y as int, 12) + month_len(y as int, 12));
        }
    }
    (y, m, rem + 1)
}

/// Text of `n` in decimal, zero-padded on the left to `width` digits.
pub open spec fn padded(n: nat, width: nat) -> Seq<char> {
    let d = decimal(n);
    if d.len() < width {
        Seq::new((width - d.len()) as nat, |i: int| '0') + d
    } else {
        d
    }
}

/// RFC 3339 UTC text of a civil date and time.
pub open spec fn rfc3339(y: nat, mo: nat, d: nat, h: nat, mi: nat, s: nat) -> Seq<char> {
    padded(y, 4) + "-"@ + padded(mo, 2) + "-"@ + padded(d, 2) + "T"@ + padded(h, 2) + ":"@ + padded(mi, 2)
        + ":"@ + padded(s, 2) + "Z"@
}

/// The civil date `rem` days into month `m` of year `y`, carrying into
/// later months.
pub open spec fn civil_in_year(y: int, m: int, rem: int) -> (int, int, int)
    decreases 12 - m,
{
    if m >= 12 || rem < month_len(y, m) {
        (y, m, rem + 1)
    } else {
        civil_in_year(y, m + 1, rem - month_len(y, m))
    }
}

/// The civil date `days` days after the first day of year `y`.
pub open spec fn civil_from(y: int, days: int) -> (int, int, int)
    decreases days,
{
    if days < 0 || days < year_len(y) {
        civil_in_year(y, 1, days)
    } else {
        civil_from(y + 1, days - year_len(y))
    }
}

/// The civil date of a day number (days since 1970-01-01).
pub open spec fn civil_of_days(days: int) -> (int, int, int) {
    civil_from(1970, days)
}

/// The RFC 3339 UTC timestamp of a Unix time: the civil date of its day,
/// then hours, minutes and seconds of the day.
pub open spec fn rfc3339_of_secs(secs: nat) -> Seq<char> {
    let ymd = civil_of_days((secs / 86400) as int);
    let rem = secs % 86400;
    rfc3339(ymd.0 as nat, ymd.1 as nat, ymd.2 as nat, rem / 3600, (rem % 3600) / 60, rem % 60)
}

/// The civil date and time of day of a Unix time.
pub fn secs_to_ymdhms(secs: u64) -> (r: (u64, u64, u64, u64, u64, u64))
    ensures
        (r.0 as int, r.1 as int, r.2 as int) == civil_of_days((secs / 86400) as int),
        r.3 == (secs % 86400) / 3600,
        r.4 == ((secs % 86400) % 3600) / 60,
        r.5 == (secs % 86400) % 60,
{
    let days = secs / 86400;
    let rem = secs % 86400;
    let (y, m, d) = days_to_ymd(days);
    (y, m, d, rem / 3600, (rem % 3600) / 60, rem % 60)
}

/// Append `n` in decimal, zero-padded to `width` digits.
pub fn push_padded(s: &mut String, n: u64, width: usize)
    ensures
        final(s)@ == old(s)@ + padded(n as nat, width as nat),
{
    let mut digits = String::new();
    push_decimal(&mut digits, n);
    assert(digits@ =~= decimal(n as nat));
    let len = digits.unicode_len();
    let ghost start = s@;
    if len < width {
        let mut i: usize = len;
        while i < width
            invariant
                len <= i <= width,
                s@ == start + Seq::new((i - len) as nat, |k: int| '0'),
            decreases width - i,
        {
            push_char(s, '0');
            assert(s@ =~= start + Seq::new((i + 1 - len) as nat, |k: int| '0'));
            i = i + 1;
        }
    }
    s.append(digits.as_str());
    assert(s@ =~= start + padded(n as nat, width as nat));
}

/// The RFC 3339 UTC timestamp of a Unix time (`YYYY-MM-DDTHH:MM:SSZ`).
pub fn format_timestamp_at(secs: u64) -> (r: String)
    ensures
        r@ == rfc3339_of_secs(secs as nat),
{
    let (y, mo, d, h, mi, sec) = secs_to_ymdhms(secs);
    let mut out = String::new();
    push_padded(&mut out, y, 4);
    push_char(&mut out, '-');
    push_padded(&mut out, mo, 2);
    push_char(&mut out, '-');
    push_padded(&mut out, d, 2);
    push_char(&mut out, 'T');
    push_padded(&mut out, h, 2);
    push_char(&mut out, ':');
    push_padded(&mut out, mi, 2);
    push_char(&mut out, ':');
    push_padded(&mut out, sec, 2);
    push_char(&mut out, 'Z');
    proof {
        reveal_strlit("-");
        reveal_strlit("T");
        reveal_strlit(":");
        reveal_strlit("Z");
        assert(out@ =~= rfc3339_of_secs(secs as nat));
    }
    out
}

/// The RFC 3339 UTC timestamp of the current time.
pub fn format_timestamp_rfc3339() -> (r: String)
    ensures
        exists|t: u64| r@ == rfc3339_of_secs(t as nat),
{
    let now = crate::db::unix_now_secs();
    format_timestamp_at(now)
}

} // verus!
