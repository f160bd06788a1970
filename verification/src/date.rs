//! Calendar dates (proleptic Gregorian, UTC) of modification times, as
//! `YYYYMMDD` text.

use vstd::prelude::*;
use crate::text::{
    decimal, digits_value, extend_chars, is_digit_char, law_decimal_reads_back, law_zero_padded_reads_back,
    padded_decimal, zero_padded,
};

verus! {

pub open spec fn is_leap(y: int) -> bool {
    (y % 4 == 0 && y % 100 != 0) || y % 400 == 0
}

pub open spec fn year_length(y: int) -> int {
    if is_leap(y) { 366 } else { 365 }
}

/// The number of days from 1970-01-01 to the first day of year `y`
/// (negative before 1970).
pub open spec fn days_before_year(y: int) -> int
    decreases (if y >= 1970 { y - 1970 } else { 1970 - y }),
{
    if y == 1970 {
        0
    } else if y > 1970 {
        days_before_year(y - 1) + year_length(y - 1)
    } else {
        days_before_year(y + 1) - year_length(y)
    }
}

pub open spec fn month_length(y: int, m: int) -> int {
    if m == 2 {
        if is_leap(y) { 29 } else { 28 }
    } else if m == 4 || m == 6 || m == 9 || m == 11 {
        30
    } else {
        31
    }
}

/// The number of days in year `y` before the first day of month `m`.
pub open spec fn days_before_month(y: int, m: int) -> int
    decreases m,
{
    if m <= 1 {
        0
    } else {
        days_before_month(y, m - 1) + month_length(y, m - 1)
    }
}

/// Year `y`, month `m`, day `d` is a valid date, `days` days after 1970-01-01.
pub open spec fn is_date_of(days: int, y: int, m: int, d: int) -> bool {
    &&& 1 <= m <= 12
    &&& 1 <= d <= month_length(y, m)
    &&& days_before_year(y) + days_before_month(y, m) + d - 1 == days
}

/// Day `days` (counted from 1970-01-01) falls in the years 0 to 9999.
pub open spec fn has_four_digit_date(days: int) -> bool {
    exists|y: int, m: int, d: int| 0 <= y <= 9999 && #[trigger] is_date_of(days, y, m, d)
}

/// The date of day `days`.
pub open spec fn date_of(days: int) -> (int, int, int) {
    choose|y: int, m: int, d: int| #[trigger] is_date_of(days, y, m, d)
}

/// Nanoseconds per day.
pub open spec fn day_nanos() -> int {
    86_400_000_000_000
}

/// The day (from 1970-01-01) of a time in nanoseconds since the epoch.
pub open spec fn day_of_time(nanos: int) -> int {
    nanos / day_nanos()
}

/// The `YYYYMMDD` text of a modification time, when it is known and its
/// year has four digits.
pub open spec fn date_text(modified: Option<i128>) -> Option<Seq<char>> {
    match modified {
        None => None,
        Some(t) => {
            let days = day_of_time(t as int);
            if has_four_digit_date(days) {
                let (y, m, d) = date_of(days);
                Some(zero_padded(y as nat, 4) + zero_padded(m as nat, 2) + zero_padded(d as nat, 2))
            } else {
                None
            }
        },
    }
}

proof fn lemma_days_before_year_step(y: int)
    ensures
        days_before_year(y + 1) == days_before_year(y) + year_length(y),
    decreases (if y >= 1970 { y - 1970 } else { 1970 - y }),
{
    if y >= 1970 {
    } else {
        assert(days_before_year(y) == days_before_year(y + 1) - year_length(y));
    }
}

proof fn lemma_days_before_year_mono(a: int, b: int)
    requires
        a <= b,
    ensures
        days_before_year(a) + (b - a) * 365 <= days_before_year(b),
    decreases b - a,
{
    if a < b {
        lemma_days_before_year_mono(a, b - 1);
        lemma_days_before_year_step(b - 1);
    }
}

proof fn lemma_month_sum(y: int, m: int)
    requires
        1 <= m <= 13,
    ensures
        days_before_month(y, m) >= 0,
        m <= 12 ==> days_before_month(y, m) + month_length(y, m) == days_before_month(y, m + 1),
        days_before_month(y, 13) == year_length(y),
        m <= 12 ==> days_before_month(y, m) + month_length(y, m) <= year_length(y),
    decreases 13 - m,
{
    reveal_with_fuel(days_before_month, 13);
    if m < 13 {
        lemma_month_sum(y, m + 1);
    }
}

proof fn lemma_month_mono(y: int, a: int, b: int)
    requires
        1 <= a <= b <= 13,
    ensures
        days_before_month(y, a) + (b - a) * 28 <= days_before_month(y, b),
    decreases b - a,
{
    if a < b {
        lemma_month_mono(y, a, b - 1);
        lemma_month_sum(y, b - 1);
    }
}

/// A day has at most one date.
pub proof fn lemma_date_unique(days: int, y1: int, m1: int, d1: int, y2: int, m2: int, d2: int)
    requires
        is_date_of(days, y1, m1, d1),
        is_date_of(days, y2, m2, d2),
    ensures
        y1 == y2 && m1 == m2 && d1 == d2,
{
    lemma_month_sum(y1, m1);
    lemma_month_sum(y2, m2);
    if y1 < y2 {
        lemma_days_before_year_mono(y1 + 1, y2);
        lemma_days_before_year_step(y1);
    } else if y2 < y1 {
        lemma_days_before_year_mono(y2 + 1, y1);
        lemma_days_before_year_step(y2);
    }
    assert(y1 == y2);
    if m1 < m2 {
        lemma_month_mono(y1, m1 + 1, m2);
        lemma_month_sum(y1, m1);
    } else if m2 < m1 {
        lemma_month_mono(y1, m2 + 1, m1);
        lemma_month_sum(y1, m2);
    }
}

fn leap(y: i64) -> (r: bool)
    ensures
        r == is_leap(y as int),
{
    (y % 4 == 0 && y % 100 != 0) || y % 400 == 0
}

fn year_len(y: i64) -> (r: i64)
    ensures
        r == year_length(y as int),
{
    if leap(y) { 366 } else { 365 }
}

fn month_len(y: i64, m: i64) -> (r: i64)
    ensures
        r == month_length(y as int, m as int),
{
    if m == 2 {
        if leap(y) { 29 } else { 28 }
    } else if m == 4 || m == 6 || m == 9 || m == 11 {
        30
    } else {
        31
    }
}

/// The day (from 1970-01-01) of a time in nanoseconds, rounded down.
fn day_number(nanos: i128) -> (d: i128)
    ensures
        d == day_of_time(nanos as int),
{
    let per_day: i128 = 86_400_000_000_000;
    if nanos >= 0 {
        let q = nanos / per_day;
        proof {
            let n = nanos as int;
            let dd = day_nanos();
            assert(n == dd * (n / dd) + n % dd) by (nonlinear_arith)
                requires dd > 0;
        }
        q
    } else {
        let m = -(nanos + 1);
        let q = m / per_day;
        proof {
            let n = nanos as int;
            let mm = m as int;
            let qq = q as int;
            let dd = day_nanos();
            assert(dd * qq <= mm < dd * (qq + 1)) by (nonlinear_arith)
                requires dd > 0, mm >= 0, qq == mm / dd;
            assert(dd * (-qq - 1) <= n < dd * (-qq - 1) + dd) by (nonlinear_arith)
                requires dd * qq <= mm, mm < dd * (qq + 1), n == -mm - 1;
            vstd::arithmetic::div_mod::lemma_fundamental_div_mod_converse(n, dd, -qq - 1, n - dd * (-qq - 1));
        }
        -q - 1
    }
}

/// The date of day `days`, if its year lies in 0 to 9999.
fn four_digit_date(days: i128) -> (r: Option<(i64, i64, i64)>)
    ensures
        r is Some <==> has_four_digit_date(days as int),
        r matches Some((y, m, d)) ==> 0 <= y <= 9999 && is_date_of(days as int, y as int, m as int, d as int),
{
    let mut y: i64 = 1970;
    let mut rem: i128 = days;
    while rem < 0 && y > 0
        invariant
            0 <= y <= 1970,
            days_before_year(y as int) + rem == days,
        decreases y,
    {
        proof {
            lemma_days_before_year_step(y - 1);
        }
        y -= 1;
        rem += year_len(y) as i128;
    }
    if rem < 0 {
        proof {
            assert forall|yy: int, mm: int, dd: int| 0 <= yy <= 9999 implies !#[trigger] is_date_of(days as int, yy, mm, dd) by {
                lemma_days_before_year_mono(0, yy);
                if 1 <= mm <= 12 {
                    lemma_month_sum(yy, mm);
                }
            }
        }
        return None;
    }
    while rem >= year_len(y) as i128 && y < 9999
        invariant
            0 <= y <= 9999,
            rem >= 0,
            days_before_year(y as int) + rem == days,
        decreases 9999 - y,
    {
        proof {
            lemma_days_before_year_step(y as int);
        }
        rem -= year_len(y) as i128;
        y += 1;
    }
    if rem >= year_len(y) as i128 {
        proof {
            lemma_days_before_year_step(9999);
            assert forall|yy: int, mm: int, dd: int| 0 <= yy <= 9999 implies !#[trigger] is_date_of(days as int, yy, mm, dd) by {
                if 1 <= mm <= 12 && 1 <= dd <= month_length(yy, mm) {
                    lemma_month_sum(yy, mm);
                    lemma_days_before_year_step(yy);
                    lemma_days_before_year_mono(yy + 1, 10000);
                }
            }
        }
        return None;
    }
    let mut m: i64 = 1;
    let mut r: i128 = rem;
    proof {
        lemma_month_sum(y as int, 1);
    }
    while r >= month_len(y, m) as i128 && m < 12
        invariant
            1 <= m <= 12,
            0 <= r,
            days_before_month(y as int, m as int) + r == rem,
            rem < year_length(y as int),
        decreases 12 - m,
    {
        proof {
            lemma_month_sum(y as int, m as int);
        }
        r -= month_len(y, m) as i128;
        m += 1;
    }
    proof {
        lemma_month_sum(y as int, m as int);
        lemma_month_sum(y as int, 13);
        if m == 12 {
            assert(days_before_month(y as int, 13) == days_before_month(y as int, 12) + month_length(y as int, 12));
        }
    }
    let d = (r + 1) as i64;
    assert(is_date_of(days as int, y as int, m as int, d as int));
    Some((y, m, d))
}

/// The `YYYYMMDD` text of a modification time, as `date_text` says.
pub fn date_chars(modified: Option<i128>) -> (r: Option<Vec<char>>)
    ensures
        match (r, date_text(modified)) {
            (Some(v), Some(t)) => v@ == t,
            (None, None) => true,
            _ => false,
        },
{
    match modified {
        None => None,
        Some(t) => {
            let days = day_number(t);
            match four_digit_date(days) {
                None => None,
                Some((y, m, d)) => {
                    proof {
                        let c = date_of(days as int);
                        lemma_date_unique(days as int, y as int, m as int, d as int, c.0, c.1, c.2);
                    }
                    let mut out = padded_decimal(y as u128, 4);
                    let mm = padded_decimal(m as u128, 2);
                    let dd = padded_decimal(d as u128, 2);
                    extend_chars(&mut out, mm.as_slice());
                    extend_chars(&mut out, dd.as_slice());
                    Some(out)
                },
            }
        },
    }
}

/// The number of days of month `m` (1 to 12) of year `y` in the
/// Gregorian calendar: 31, 28 or 29, 31, 30, 31, 30, 31, 31, 30, 31, 30,
/// 31; February has 29 days in years divisible by 4, except centuries not
/// divisible by 400.
pub open spec fn gregorian_month_days(y: int, m: int) -> int {
    if m == 1 { 31 }
    else if m == 2 { if y % 400 == 0 || (y % 4 == 0 && y % 100 != 0) { 29 } else { 28 } }
    else if m == 3 { 31 }
    else if m == 4 { 30 }
    else if m == 5 { 31 }
    else if m == 6 { 30 }
    else if m == 7 { 31 }
    else if m == 8 { 31 }
    else if m == 9 { 30 }
    else if m == 10 { 31 }
    else if m == 11 { 30 }
    else { 31 }
}

/// Year, month and day read from a `YYYYMMDD` text.
pub open spec fn read_date(x: Seq<char>) -> (int, int, int) {
    (digits_value(x.subrange(0, 4)), digits_value(x.subrange(4, 6)), digits_value(x.subrange(6, 8)))
}

/// The day after year `y`, month `m`, day `d` of the Gregorian calendar.
pub open spec fn gregorian_next_day(y: int, m: int, d: int) -> (int, int, int) {
    if d < gregorian_month_days(y, m) {
        (y, m, d + 1)
    } else if m < 12 {
        (y, m + 1, 1)
    } else {
        (y + 1, 1, 1)
    }
}

proof fn lemma_decimal_short(n: nat)
    ensures
        n < 10 ==> decimal(n).len() <= 1,
        n < 100 ==> decimal(n).len() <= 2,
        n < 1000 ==> decimal(n).len() <= 3,
        n < 10000 ==> decimal(n).len() <= 4,
    decreases n,
{
    if n >= 10 {
        lemma_decimal_short(n / 10);
    }
}

proof fn lemma_date_of_is_date(days: int)
    requires
        has_four_digit_date(days),
    ensures
        is_date_of(days, date_of(days).0, date_of(days).1, date_of(days).2),
        0 <= date_of(days).0 <= 9999,
{
    let (y, m, d) = choose|y: int, m: int, d: int| 0 <= y <= 9999 && #[trigger] is_date_of(days, y, m, d);
    let c = date_of(days);
    lemma_date_unique(days, y, m, d, c.0, c.1, c.2);
}

proof fn lemma_text_of_date(days: int)
    requires
        has_four_digit_date(days),
    ensures
        ({
            let c = date_of(days);
            let x = zero_padded(c.0 as nat, 4) + zero_padded(c.1 as nat, 2) + zero_padded(c.2 as nat, 2);
            &&& x.len() == 8
            &&& forall|i: int| 0 <= i < 8 ==> is_digit_char(#[trigger] x[i])
            &&& read_date(x) == c
        }),
{
    lemma_date_of_is_date(days);
    let c = date_of(days);
    lemma_month_sum(c.0, c.1);
    lemma_decimal_short(c.0 as nat);
    lemma_decimal_short(c.1 as nat);
    lemma_decimal_short(c.2 as nat);
    law_zero_padded_reads_back(c.0 as nat, 4);
    law_zero_padded_reads_back(c.1 as nat, 2);
    law_zero_padded_reads_back(c.2 as nat, 2);
    let a = zero_padded(c.0 as nat, 4);
    let b = zero_padded(c.1 as nat, 2);
    let e = zero_padded(c.2 as nat, 2);
    let x = a + b + e;
    assert(x.subrange(0, 4) =~= a);
    assert(x.subrange(4, 6) =~= b);
    assert(x.subrange(6, 8) =~= e);
    assert forall|i: int| 0 <= i < 8 implies is_digit_char(#[trigger] x[i]) by {
        if i < 4 {
            assert(x[i] == a[i]);
        } else if i < 6 {
            assert(x[i] == b[i - 4]);
        } else {
            assert(x[i] == e[i - 6]);
        }
    }
}

/// The date text of a time is eight digits `YYYYMMDD` naming a real day of
/// the Gregorian calendar: a month from 1 to 12 and a day within that
/// month's length.
pub proof fn law_date_text_is_calendar_date(t: i128)
    requires
        date_text(Some(t)) is Some,
    ensures
        ({
            let x = date_text(Some(t))->0;
            let (y, m, d) = read_date(x);
            &&& x.len() == 8
            &&& forall|i: int| 0 <= i < 8 ==> is_digit_char(#[trigger] x[i])
            &&& 0 <= y <= 9999
            &&& 1 <= m <= 12
            &&& 1 <= d <= gregorian_month_days(y, m)
        }),
{
    let days = day_of_time(t as int);
    lemma_text_of_date(days);
    lemma_date_of_is_date(days);
}

/// The epoch, 1970-01-01 00:00 UTC, is the day `19700101`.
pub proof fn law_date_text_epoch()
    ensures
        date_text(Some(0i128)) is Some,
        read_date(date_text(Some(0i128))->0) == (1970int, 1int, 1int),
{
    assert(day_of_time(0) == 0);
    reveal_with_fuel(days_before_month, 2);
    assert(is_date_of(0, 1970, 1, 1));
    assert(has_four_digit_date(0));
    lemma_text_of_date(0);
    lemma_date_of_is_date(0);
    let c = date_of(0);
    lemma_date_unique(0, 1970, 1, 1, c.0, c.1, c.2);
}

/// One day later the date text names the next day of the Gregorian
/// calendar (the last day of year 9999 excepted, after which there is no
/// four-digit year).
pub proof fn law_date_text_next_day(t: i128)
    requires
        date_text(Some(t)) is Some,
        t + day_nanos() <= i128::MAX,
        read_date(date_text(Some(t))->0) != (9999int, 12int, 31int),
    ensures
        date_text(Some((t + day_nanos()) as i128)) is Some,
        read_date(date_text(Some((t + day_nanos()) as i128))->0) == ({
            let (y, m, d) = read_date(date_text(Some(t))->0);
            gregorian_next_day(y, m, d)
        }),
{
    let days = day_of_time(t as int);
    let t2 = (t + day_nanos()) as i128;
    let dn = day_nanos();
    assert(day_of_time(t2 as int) == days + 1) by {
        let n = t as int;
        vstd::arithmetic::div_mod::lemma_fundamental_div_mod(n, dn);
        vstd::arithmetic::div_mod::lemma_fundamental_div_mod_converse(n + dn, dn, n / dn + 1, n % dn);
    }
    lemma_text_of_date(days);
    lemma_date_of_is_date(days);
    let (y, m, d) = date_of(days);
    lemma_month_sum(y, m);
    assert(month_length(y, m) == gregorian_month_days(y, m));
    let (y2, m2, d2) = gregorian_next_day(y, m, d);
    if d < month_length(y, m) {
        assert(is_date_of(days + 1, y2, m2, d2));
    } else if m < 12 {
        lemma_month_sum(y, m + 1);
        assert(is_date_of(days + 1, y2, m2, d2));
    } else {
        lemma_month_sum(y, 12);
        lemma_month_sum(y, 13);
        lemma_days_before_year_step(y);
        reveal_with_fuel(days_before_month, 2);
        assert(days_before_month(y, 13) == days_before_month(y, 12) + month_length(y, 12));
        assert(is_date_of(days + 1, y2, m2, d2));
    }
    assert(0 <= y2 <= 9999);
    assert(has_four_digit_date(days + 1));
    lemma_text_of_date(days + 1);
    lemma_date_of_is_date(days + 1);
    let c2 = date_of(days + 1);
    lemma_date_unique(days + 1, y2, m2, d2, c2.0, c2.1, c2.2);
}

} // verus!
