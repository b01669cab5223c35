//! Dates and times as text.

use vstd::prelude::*;

use crate::text::{zero_filled, zero_filled_text};

verus! {

/// Leap years of the Gregorian calendar.
pub open spec fn leap(y: nat) -> bool {
    (y % 4 == 0 && y % 100 != 0) || y % 400 == 0
}

/// Days of a year.
pub open spec fn year_len(y: nat) -> nat {
    if leap(y) {
        366
    } else {
        365
    }
}

/// Days of a month, January being 1.
pub open spec fn month_len(y: nat, m: nat) -> nat {
    if m == 2 {
        if leap(y) {
            29
        } else {
            28
        }
    } else if m == 4 || m == 6 || m == 9 || m == 11 {
        30
    } else {
        31
    }
}

/// Days from the start of 1970 to the start of a year.
pub open spec fn days_before_year(y: nat) -> nat
    decreases y,
{
    if y <= 1970 {
        0
    } else {
        days_before_year((y - 1) as nat) + year_len((y - 1) as nat)
    }
}

/// Days from the start of a year to the start of a month.
pub open spec fn days_before_month(y: nat, m: nat) -> nat
    decreases m,
{
    if m <= 1 {
        0
    } else {
        days_before_month(y, (m - 1) as nat) + month_len(y, (m - 1) as nat)
    }
}

/// Whether year, month and day are a date from 1970 on.
pub open spec fn is_date(y: nat, m: nat, d: nat) -> bool {
    1970 <= y && 1 <= m <= 12 && 1 <= d <= month_len(y, m)
}

/// Days from the first of January 1970 to a date.
pub open spec fn day_number(y: nat, m: nat, d: nat) -> int {
    days_before_year(y) + days_before_month(y, m) + d - 1
}

proof fn lemma_month_starts(y: nat)
    ensures
        days_before_month(y, 1) == 0,
        days_before_month(y, 2) == 31,
        days_before_month(y, 13) == year_len(y),
{
    reveal_with_fuel(days_before_month, 14);
}

proof fn lemma_months_increase(y: nat, m: nat, n: nat)
    requires
        1 <= m < n,
    ensures
        days_before_month(y, m) + month_len(y, m) <= days_before_month(y, n),
    decreases n,
{
    if m + 1 < n {
        lemma_months_increase(y, m, (n - 1) as nat);
    }
}

proof fn lemma_years_increase(y: nat, z: nat)
    requires
        1970 <= y < z,
    ensures
        days_before_year(y) + year_len(y) <= days_before_year(z),
    decreases z,
{
    if y + 1 < z {
        lemma_years_increase(y, (z - 1) as nat);
    }
}

/// No two dates are the same day.
pub proof fn law_day_numbers_are_unique(y: nat, m: nat, d: nat, y2: nat, m2: nat, d2: nat)
    requires
        is_date(y, m, d),
        is_date(y2, m2, d2),
        day_number(y, m, d) == day_number(y2, m2, d2),
    ensures
        y == y2,
        m == m2,
        d == d2,
{
    lemma_month_starts(y);
    lemma_month_starts(y2);
    lemma_months_increase(y, m, 13);
    lemma_months_increase(y2, m2, 13);
    if y < y2 {
        lemma_years_increase(y, y2);
    } else if y2 < y {
        lemma_years_increase(y2, y);
    } else {
        if m < m2 {
            lemma_months_increase(y, m, m2);
        } else if m2 < m {
            lemma_months_increase(y, m2, m);
        }
    }
}

/// Whether a year is a leap year.
pub fn is_leap(y: u64) -> (b: bool)
    ensures
        b == leap(y as nat),
{
    (y % 4 == 0 && y % 100 != 0) || (y % 400 == 0)
}

fn days_in_month(y: u64, m: u64) -> (n: u64)
    ensures
        n == month_len(y as nat, m as nat),
{
    if m == 2 {
        if is_leap(y) {
            29
        } else {
            28
        }
    } else if m == 4 || m == 6 || m == 9 || m == 11 {
        30
    } else {
        31
    }
}

/// The date that lies a number of days behind the first of January 1970, as
/// year, month and day.
pub fn days_to_ymd(days: u64) -> (date: (u64, u64, u64))
    ensures
        is_date(date.0 as nat, date.1 as nat, date.2 as nat),
        day_number(date.0 as nat, date.1 as nat, date.2 as nat) == days,
{
    let mut rest: u64 = days;
    let mut y: u64 = 1970;
    loop
        invariant
            1970 <= y,
            (y - 1970) * 365 + rest <= days,
            days_before_year(y as nat) + rest == days,
        ensures
            rest < year_len(y as nat),
        decreases rest,
    {
        let len: u64 = if is_leap(y) {
            366
        } else {
            365
        };
        if rest < len {
            break;
        }
        rest = rest - len;
        y = y + 1;
    }
    let mut m: u64 = 1;
    proof {
        lemma_month_starts(y as nat);
    }
    let ghost in_year = rest;
    loop
        invariant
            1 <= m <= 12,
            1970 <= y,
            days_before_month(y as nat, m as nat) + rest == in_year,
            in_year < year_len(y as nat),
            days_before_month(y as nat, 13) == year_len(y as nat),
        ensures
            rest < month_len(y as nat, m as nat),
        decreases rest,
    {
        let len: u64 = days_in_month(y, m);
        if rest < len {
            break;
        }
        rest = rest - len;
        m = m + 1;
        proof {
            assert(days_before_month(y as nat, m as nat) == days_before_month(
                y as nat,
                (m - 1) as nat,
            ) + len);
        }
    }
    (y, m, rest + 1)
}

/// The text of a date and a time of day.
pub open spec fn stamp(y: nat, m: nat, d: nat, second_of_day: nat) -> Seq<char> {
    zero_filled(y, 4) + "-"@ + zero_filled(m, 2) + "-"@ + zero_filled(d, 2) + "T"@ + zero_filled(
        second_of_day / 3600,
        2,
    ) + ":"@ + zero_filled((second_of_day % 3600) / 60, 2) + ":"@ + zero_filled(
        second_of_day % 60,
        2,
    ) + "Z"@
}

/// Whether a text is the ISO 8601 form of a number of seconds since the start
/// of 1970 in UTC.
pub open spec fn is_stamp_of(text: Seq<char>, secs: nat) -> bool {
    exists|y: nat, m: nat, d: nat|
        #![trigger is_date(y, m, d)]
        is_date(y, m, d) && day_number(y, m, d) == secs / 86400 && text == stamp(
            y,
            m,
            d,
            secs % 86400,
        )
}

/// The ISO 8601 text of a number of seconds since the start of 1970 in UTC.
pub fn iso8601_text(secs: u64) -> (text: String)
    ensures
        is_stamp_of(text@, secs as nat),
{
    let second_of_day: u64 = secs % 86400;
    let (y, m, d) = days_to_ymd(secs / 86400);
    let mut s = zero_filled_text(y, 4);
    s.append("-");
    s.append(zero_filled_text(m, 2).as_str());
    s.append("-");
    s.append(zero_filled_text(d, 2).as_str());
    s.append("T");
    s.append(zero_filled_text(second_of_day / 3600, 2).as_str());
    s.append(":");
    s.append(zero_filled_text((second_of_day % 3600) / 60, 2).as_str());
    s.append(":");
    s.append(zero_filled_text(second_of_day % 60, 2).as_str());
    s.append("Z");
    assert(is_date(y as nat, m as nat, d as nat));
    assert(s@ == stamp(y as nat, m as nat, d as nat, secs as nat % 86400));
    s
}

/// A moment has one text.
pub proof fn law_one_stamp_per_moment(a: Seq<char>, b: Seq<char>, secs: nat)
    requires
        is_stamp_of(a, secs),
        is_stamp_of(b, secs),
    ensures
        a == b,
{
    let (y, m, d) = choose|y: nat, m: nat, d: nat|
        #![trigger is_date(y, m, d)]
        is_date(y, m, d) && day_number(y, m, d) == secs / 86400 && a == stamp(
            y,
            m,
            d,
            secs % 86400,
        );
    let (y2, m2, d2) = choose|y: nat, m: nat, d: nat|
        #![trigger is_date(y, m, d)]
        is_date(y, m, d) && day_number(y, m, d) == secs / 86400 && b == stamp(
            y,
            m,
            d,
            secs % 86400,
        );
    law_day_numbers_are_unique(y, m, d, y2, m2, d2);
}

/// Calls `std::time::SystemTime::now` and counts the whole seconds since the
/// start of 1970, zero before it. Nothing is claimed of the clock.
#[verifier::external_body]
pub(crate) fn unix_seconds() -> (secs: u64)
{
    std::time::SystemTime::now().duration_since(std::time::UNIX_EPOCH).unwrap_or_default().as_secs()
}

/// The current time in UTC as ISO 8601 text.
pub fn iso8601_now() -> (text: String)
    ensures
        exists|secs: u64| #[trigger] is_stamp_of(text@, secs as nat),
{
    let secs: u64 = unix_seconds();
    iso8601_text(secs)
}

} // verus!
