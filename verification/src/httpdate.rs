//! HTTP date formatting: an instant given as whole seconds since the Unix
//! epoch is rendered as an IMF-fixdate string (`Sun, 06 Nov 1994 08:49:37
//! GMT`). An instant before the epoch or beyond year 9999 is not
//! representable and yields no header.

use vstd::prelude::*;

verus! {

/// Gregorian leap-year rule.
pub open spec fn is_leap_year(y: int) -> bool {
    y % 4 == 0 && (y % 100 != 0 || y % 400 == 0)
}

pub open spec fn days_in_year(y: int) -> int {
    if is_leap_year(y) {
        366
    } else {
        365
    }
}

pub open spec fn days_in_month(y: int, m: int) -> int {
    if m == 2 {
        if is_leap_year(y) {
            29
        } else {
            28
        }
    } else if m == 4 || m == 6 || m == 9 || m == 11 {
        30
    } else {
        31
    }
}

/// Days from the first of January to the first of month `m` in year `y`.
pub open spec fn days_before_month(y: int, m: int) -> int
    decreases m,
{
    if m <= 1 {
        0
    } else {
        days_before_month(y, m - 1) + days_in_month(y, m - 1)
    }
}

/// Days from 1970-01-01 to the first day of year `y`.
pub open spec fn days_before_year(y: int) -> int
    decreases y - 1970 when y >= 1970
{
    if y <= 1970 {
        0
    } else {
        days_before_year(y - 1) + days_in_year(y - 1)
    }
}

/// The day number (days since 1970-01-01) of the civil date `y-m-d`.
pub open spec fn day_number(y: int, m: int, d: int) -> int {
    days_before_year(y) + days_before_month(y, m) + (d - 1)
}

/// The year and the remaining day offset reached by peeling whole years off
/// a day count, starting at year `y`.
pub open spec fn year_of_day(y: int, rem: int) -> (int, int)
    decreases rem when rem >= 0

{
    if rem >= days_in_year(y) {
        year_of_day(y + 1, rem - days_in_year(y))
    } else {
        (y, rem)
    }
}

/// The month and the remaining day offset reached by peeling whole months off
/// a day offset within year `y`, starting at month `m`.
pub open spec fn month_of_day(y: int, m: int, rem: int) -> (int, int)
    decreases 12 - m,
{
    if m < 12 && rem >= days_in_month(y, m) {
        month_of_day(y, m + 1, rem - days_in_month(y, m))
    } else {
        (m, rem)
    }
}

/// An instant is representable as an HTTP date when it is not before the
/// epoch and its civil year has at most four digits.
pub open spec fn date_representable(secs: int) -> bool {
    0 <= secs && year_of_day(1970, secs / 86400).0 <= 9999
}

pub open spec fn digit_char(d: int) -> char {
    if d == 0 {
        '0'
    } else if d == 1 {
        '1'
    } else if d == 2 {
        '2'
    } else if d == 3 {
        '3'
    } else if d == 4 {
        '4'
    } else if d == 5 {
        '5'
    } else if d == 6 {
        '6'
    } else if d == 7 {
        '7'
    } else if d == 8 {
        '8'
    } else {
        '9'
    }
}

/// The decimal rendering of a nonnegative integer, most significant digit
/// first, with no leading zero except for zero itself.
pub open spec fn decimal_chars(n: int) -> Seq<char>
    decreases n when n >= 0
{
    if n < 10 {
        seq![digit_char(n)]
    } else {
        decimal_chars(n / 10) + seq![digit_char(n % 10)]
    }
}

pub open spec fn two_digits(n: int) -> Seq<char> {
    seq![digit_char(n / 10), digit_char(n % 10)]
}

pub open spec fn four_digits(n: int) -> Seq<char> {
    seq![
        digit_char(n / 1000),
        digit_char((n / 100) % 10),
        digit_char((n / 10) % 10),
        digit_char(n % 10),
    ]
}

/// Weekday name for the index `w`, with 0 standing for Sunday.
pub open spec fn weekday_name(w: int) -> Seq<char> {
    if w == 0 {
        "Sun"@
    } else if w == 1 {
        "Mon"@
    } else if w == 2 {
        "Tue"@
    } else if w == 3 {
        "Wed"@
    } else if w == 4 {
        "Thu"@
    } else if w == 5 {
        "Fri"@
    } else {
        "Sat"@
    }
}

pub open spec fn month_name(m: int) -> Seq<char> {
    if m == 1 {
        "Jan"@
    } else if m == 2 {
        "Feb"@
    } else if m == 3 {
        "Mar"@
    } else if m == 4 {
        "Apr"@
    } else if m == 5 {
        "May"@
    } else if m == 6 {
        "Jun"@
    } else if m == 7 {
        "Jul"@
    } else if m == 8 {
        "Aug"@
    } else if m == 9 {
        "Sep"@
    } else if m == 10 {
        "Oct"@
    } else {
        if m == 11 {
            "Nov"@
        } else {
            "Dec"@
        }
    }
}

/// The IMF-fixdate rendering of a representable instant. Day 0 of the epoch
/// was a Thursday, so the weekday index of a day count is `(days + 4) % 7`
/// with Sunday as 0.
pub open spec fn http_date_chars(secs: int) -> Seq<char> {
    let days = secs / 86400;
    let sod = secs % 86400;
    let yr = year_of_day(1970, days);
    let mr = month_of_day(yr.0, 1, yr.1);
    weekday_name((days + 4) % 7) + ", "@ + two_digits(mr.1 + 1) + " "@ + month_name(mr.0)
        + " "@ + four_digits(yr.0) + " "@ + two_digits(sod / 3600) + ":"@ + two_digits(
        (sod / 60) % 60,
    ) + ":"@ + two_digits(sod % 60) + " GMT"@
}

/// Peeling years never moves the year backwards.
proof fn lemma_year_of_day_lower_bound(y: int, rem: int)
    requires
        rem >= 0,
    ensures
        year_of_day(y, rem).0 >= y,
    decreases rem,
{
    if rem >= days_in_year(y) {
        lemma_year_of_day_lower_bound(y + 1, rem - days_in_year(y));
    }
}

/// The twelve months of a year cover exactly the year's days.
proof fn lemma_months_cover_year(y: int)
    ensures
        days_before_month(y, 13) == days_in_year(y),
{
    reveal_with_fuel(days_before_month, 13);
}

/// Peeling years preserves the total day count and leaves an offset inside
/// the reached year.
proof fn lemma_year_peel(y: int, rem: int)
    requires
        y >= 1970,
        rem >= 0,
    ensures
        days_before_year(year_of_day(y, rem).0) + year_of_day(y, rem).1 == days_before_year(y)
            + rem,
        0 <= year_of_day(y, rem).1 < days_in_year(year_of_day(y, rem).0),
        year_of_day(y, rem).0 >= y,
    decreases rem,
{
    if rem >= days_in_year(y) {
        lemma_year_peel(y + 1, rem - days_in_year(y));
    }
}

/// Peeling months preserves the offset within the year and, when that offset
/// lies inside the year, leaves a day offset inside the reached month.
proof fn lemma_month_peel(y: int, m: int, rem: int)
    requires
        1 <= m <= 12,
        rem >= 0,
    ensures
        days_before_month(y, month_of_day(y, m, rem).0) + month_of_day(y, m, rem).1
            == days_before_month(y, m) + rem,
        m <= month_of_day(y, m, rem).0 <= 12,
        month_of_day(y, m, rem).1 >= 0,
        days_before_month(y, m) + rem < days_in_year(y) ==> month_of_day(y, m, rem).1
            < days_in_month(y, month_of_day(y, m, rem).0),
    decreases 12 - m,
{
    if m < 12 && rem >= days_in_month(y, m) {
        lemma_month_peel(y, m + 1, rem - days_in_month(y, m));
    } else {
        if m == 12 {
            lemma_months_cover_year(y);
        }
    }
}

/// Days before a later year are never fewer.
proof fn lemma_days_before_year_monotonic(a: int, b: int)
    requires
        1970 <= a <= b,
    ensures
        days_before_year(a) <= days_before_year(b),
    decreases b - a,
{
    if a < b {
        lemma_days_before_year_monotonic(a, b - 1);
    }
}

/// Days before a later month are never fewer.
proof fn lemma_days_before_month_monotonic(y: int, a: int, b: int)
    requires
        1 <= a <= b,
    ensures
        days_before_month(y, a) <= days_before_month(y, b),
    decreases b - a,
{
    if a < b {
        lemma_days_before_month_monotonic(y, a, b - 1);
    }
}

/// A day count that falls inside year `y` is located at exactly `y`.
proof fn lemma_year_locate(start: int, y: int, rem: int)
    requires
        1970 <= start <= y,
        days_before_year(y) - days_before_year(start) <= rem,
        rem < days_before_year(y + 1) - days_before_year(start),
    ensures
        year_of_day(start, rem) == (y, rem - (days_before_year(y) - days_before_year(start))),
    decreases y - start,
{
    assert(days_before_year(y + 1) == days_before_year(y) + days_in_year(y));
    if start < y {
        lemma_days_before_year_monotonic(start + 1, y);
        lemma_year_locate(start + 1, y, rem - days_in_year(start));
    }
}

/// A day offset that falls inside month `m` of year `y` is located at
/// exactly `m`.
proof fn lemma_month_locate(y: int, start: int, m: int, rem: int)
    requires
        1 <= start <= m <= 12,
        days_before_month(y, m) - days_before_month(y, start) <= rem,
        rem < days_before_month(y, m + 1) - days_before_month(y, start),
    ensures
        month_of_day(y, start, rem) == (
            m,
            rem - (days_before_month(y, m) - days_before_month(y, start)),
        ),
    decreases m - start,
{
    assert(days_before_month(y, m + 1) == days_before_month(y, m) + days_in_month(y, m));
    if start < m {
        lemma_days_before_month_monotonic(y, start + 1, m);
        lemma_month_locate(y, start + 1, m, rem - days_in_month(y, start));
    }
}

/// Law: the day number of a valid civil date from 1970 on reads back as
/// exactly that date — together with `lemma_civil_inverse`, the calendar and
/// the date computation determine each other uniquely.
pub proof fn lemma_day_number_round_trip(y: int, m: int, d: int)
    requires
        1970 <= y,
        1 <= m <= 12,
        1 <= d <= days_in_month(y, m),
    ensures
        year_of_day(1970, day_number(y, m, d)).0 == y,
        month_of_day(y, 1, year_of_day(1970, day_number(y, m, d)).1).0 == m,
        month_of_day(y, 1, year_of_day(1970, day_number(y, m, d)).1).1 == d - 1,
{
    let dn = day_number(y, m, d);
    let off = days_before_month(y, m) + (d - 1);
    lemma_months_cover_year(y);
    lemma_days_before_month_monotonic(y, m + 1, 13);
    assert(days_before_month(y, m + 1) == days_before_month(y, m) + days_in_month(y, m));
    assert(off < days_in_year(y));
    lemma_days_before_month_monotonic(y, 1, m);
    assert(days_before_year(1970) == 0);
    assert(days_before_year(y + 1) == days_before_year(y) + days_in_year(y));
    lemma_year_locate(1970, y, dn);
    lemma_month_locate(y, 1, m, off);
}

/// Law: reading a civil date off a nonnegative day count inverts the civil
/// calendar — the date is a valid calendar date from 1970 on, and its day
/// number is the day count itself.
pub proof fn lemma_civil_inverse(days: int)
    requires
        0 <= days,
    ensures
        ({
            let yr = year_of_day(1970, days);
            let mr = month_of_day(yr.0, 1, yr.1);
            &&& yr.0 >= 1970
            &&& 1 <= mr.0 <= 12
            &&& 1 <= mr.1 + 1 <= days_in_month(yr.0, mr.0)
            &&& day_number(yr.0, mr.0, mr.1 + 1) == days
        }),
{
    let yr = year_of_day(1970, days);
    lemma_year_peel(1970, days);
    lemma_month_peel(yr.0, 1, yr.1);
}

fn leap_year(y: u32) -> (b: bool)
    ensures
        b == is_leap_year(y as int),
{
    y % 4 == 0 && (y % 100 != 0 || y % 400 == 0)
}

fn year_days(y: u32) -> (n: u32)
    ensures
        n == days_in_year(y as int),
{
    if leap_year(y) {
        366
    } else {
        365
    }
}

fn month_days(y: u32, m: u32) -> (n: u32)
    ensures
        n == days_in_month(y as int, m as int),
{
    if m == 2 {
        if leap_year(y) {
            29
        } else {
            28
        }
    } else if m == 4 || m == 6 || m == 9 || m == 11 {
        30
    } else {
        31
    }
}

pub(crate) fn digit_str(d: u32) -> (s: &'static str)
    requires
        d < 10,
    ensures
        s@ == seq![digit_char(d as int)],
{
    proof {
        reveal_strlit("0");
        reveal_strlit("1");
        reveal_strlit("2");
        reveal_strlit("3");
        reveal_strlit("4");
        reveal_strlit("5");
        reveal_strlit("6");
        reveal_strlit("7");
        reveal_strlit("8");
        reveal_strlit("9");
    }
    if d == 0 {
        "0"
    } else if d == 1 {
        "1"
    } else if d == 2 {
        "2"
    } else if d == 3 {
        "3"
    } else if d == 4 {
        "4"
    } else if d == 5 {
        "5"
    } else if d == 6 {
        "6"
    } else if d == 7 {
        "7"
    } else if d == 8 {
        "8"
    } else {
        "9"
    }
}

fn push_two_digits(out: &mut String, n: u32)
    requires
        n < 100,
    ensures
        final(out)@ == old(out)@ + two_digits(n as int),
{
    out.append(digit_str(n / 10));
    out.append(digit_str(n % 10));
    proof {
        assert(final(out)@ =~= old(out)@ + two_digits(n as int));
    }
}

fn push_four_digits(out: &mut String, n: u32)
    requires
        n < 10000,
    ensures
        final(out)@ == old(out)@ + four_digits(n as int),
{
    out.append(digit_str(n / 1000));
    out.append(digit_str((n / 100) % 10));
    out.append(digit_str((n / 10) % 10));
    out.append(digit_str(n % 10));
    proof {
        assert(final(out)@ =~= old(out)@ + four_digits(n as int));
    }
}

fn weekday_str(w: u32) -> (s: &'static str)
    requires
        w < 7,
    ensures
        s@ == weekday_name(w as int),
{
    if w == 0 {
        "Sun"
    } else if w == 1 {
        "Mon"
    } else if w == 2 {
        "Tue"
    } else if w == 3 {
        "Wed"
    } else if w == 4 {
        "Thu"
    } else if w == 5 {
        "Fri"
    } else {
        "Sat"
    }
}

fn month_str(m: u32) -> (s: &'static str)
    requires
        1 <= m <= 12,
    ensures
        s@ == month_name(m as int),
{
    if m == 1 {
        "Jan"
    } else if m == 2 {
        "Feb"
    } else if m == 3 {
        "Mar"
    } else if m == 4 {
        "Apr"
    } else if m == 5 {
        "May"
    } else if m == 6 {
        "Jun"
    } else if m == 7 {
        "Jul"
    } else if m == 8 {
        "Aug"
    } else if m == 9 {
        "Sep"
    } else if m == 10 {
        "Oct"
    } else if m == 11 {
        "Nov"
    } else {
        "Dec"
    }
}

/// Renders `n` in decimal, most significant digit first.
pub fn u64_to_decimal(n: u64) -> (s: String)
    ensures
        s@ == decimal_chars(n as int),
    decreases n,
{
    if n < 10 {
        String::from_str(digit_str(n as u32))
    } else {
        let mut s = u64_to_decimal(n / 10);
        s.append(digit_str((n % 10) as u32));
        s
    }
}

/// Renders `secs` (whole seconds since the Unix epoch) as an IMF-fixdate
/// string, or `None` when the instant is not representable as one.
pub fn format_http_date(secs: i64) -> (r: Option<String>)
    ensures
        r is Some <==> date_representable(secs as int),
        r matches Some(s) ==> s@ == http_date_chars(secs as int),
{
    if secs < 0 {
        return None;
    }
    let days: i64 = secs / 86400;
    let sod: u32 = (secs % 86400) as u32;
    let mut y: u32 = 1970;
    let mut rem: i64 = days;
    while y < 9999 && rem >= year_days(y) as i64
        invariant
            1970 <= y <= 9999,
            0 <= rem <= days,
            days == secs as int / 86400,
            secs >= 0,
            year_of_day(1970, days as int) == year_of_day(y as int, rem as int),
        decreases 9999 - y,
    {
        rem = rem - year_days(y) as i64;
        y = y + 1;
    }
    if rem >= year_days(y) as i64 {
        proof {
            lemma_year_of_day_lower_bound(y as int + 1, rem - days_in_year(y as int));
            assert(year_of_day(1970, days as int).0 >= 10000);
        }
        return None;
    }
    assert(year_of_day(1970, days as int) == (y as int, rem as int));
    let yrem: u32 = rem as u32;
    let ghost g_yrem: int = yrem as int;
    let mut m: u32 = 1;
    let mut mrem: u32 = yrem;
    while m < 12 && mrem >= month_days(y, m)
        invariant
            1 <= m <= 12,
            mrem <= yrem,
            yrem < days_in_year(y as int),
            month_of_day(y as int, 1, g_yrem) == month_of_day(y as int, m as int, mrem as int),
            days_before_month(y as int, m as int) + mrem == g_yrem,
            g_yrem == yrem,
        decreases 12 - m,
    {
        mrem = mrem - month_days(y, m);
        m = m + 1;
    }
    proof {
        lemma_months_cover_year(y as int);
        assert(mrem < days_in_month(y as int, m as int));
        assert(month_of_day(y as int, 1, g_yrem) == (m as int, mrem as int));
    }
    let d: u32 = mrem + 1;
    let w: u32 = ((days + 4) % 7) as u32;
    let mut out: String = String::new();
    out.append(weekday_str(w));
    out.append(", ");
    push_two_digits(&mut out, d);
    out.append(" ");
    out.append(month_str(m));
    out.append(" ");
    push_four_digits(&mut out, y);
    out.append(" ");
    push_two_digits(&mut out, sod / 3600);
    out.append(":");
    push_two_digits(&mut out, (sod / 60) % 60);
    out.append(":");
    push_two_digits(&mut out, sod % 60);
    out.append(" GMT");
    proof {
        assert(out@ =~= http_date_chars(secs as int));
    }
    Some(out)
}

} // verus!
