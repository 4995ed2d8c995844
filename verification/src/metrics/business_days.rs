//! Business days between two dates: the Mondays to Fridays after the
//! start day, up to and including the end day.

use crate::calendar::{parse_rfc3339, parse_ymd, rfc3339_instant, ymd_day};
use vstd::prelude::*;

verus! {

/// Day of the week of a day number (day 1 is Monday, January 1 of year 1):
/// 0 = Monday, ..., 6 = Sunday.
pub open spec fn weekday_of(day: int) -> int {
    (day - 1) % 7
}

/// Monday to Friday.
pub open spec fn is_business_day_spec(day: int) -> bool {
    weekday_of(day) < 5
}

/// Number of business days `d` with `start < d <= end`.
pub open spec fn business_days_spec(start: int, end: int) -> int
    decreases end - start,
{
    if end <= start {
        0
    } else {
        business_days_spec(start, end - 1) + if is_business_day_spec(end) {
            1int
        } else {
            0int
        }
    }
}

/// How a date string is read: first as RFC 3339 (its own calendar date),
/// then as `YYYY-MM-DD`.
pub open spec fn parse_date_spec(text: Seq<char>) -> Option<int> {
    match rfc3339_instant(text) {
        Some(instant) => Some(instant.2 as int),
        None => match ymd_day(text) {
            Some(d) => Some(d as int),
            None => None,
        },
    }
}

/// The result of `business_days_between` on two date strings.
pub open spec fn business_days_between_spec(start: Seq<char>, end: Seq<char>) -> int {
    match (parse_date_spec(start), parse_date_spec(end)) {
        (Some(s), Some(e)) => business_days_spec(s, e),
        _ => 0,
    }
}

/// Calculate business days between two dates (excluding weekends).
/// Unparseable input gives 0.
pub fn business_days_between(start: &str, end: &str) -> (days: i64)
    ensures
        days == business_days_between_spec(start@, end@),
{
    let start_date = parse_date(start);
    let end_date = parse_date(end);
    match (start_date, end_date) {
        (Some(s), Some(e)) => count_business_days(s, e),
        _ => 0,
    }
}

/// Reads a date string as RFC 3339, falling back to `YYYY-MM-DD`.
pub fn parse_date(date_str: &str) -> (r: Option<i32>)
    ensures
        match r {
            Some(d) => parse_date_spec(date_str@) == Some(d as int),
            None => parse_date_spec(date_str@) is None,
        },
{
    if let Some(instant) = parse_rfc3339(date_str) {
        return Some(instant.2);
    }
    parse_ymd(date_str)
}

/// Business days after `start` up to and including `end`.
pub fn count_business_days(start: i32, end: i32) -> (count: i64)
    ensures
        count == business_days_spec(start as int, end as int),
{
    if end <= start {
        return 0;
    }
    let mut count: i64 = 0;
    let mut current: i32 = start;
    while current < end
        invariant
            start <= current <= end,
            count == business_days_spec(start as int, current as int),
            0 <= count <= current - start,
        decreases end - current,
    {
        current = current + 1;
        if is_business_day(current) {
            count = count + 1;
        }
    }
    count
}

/// Monday to Friday.
pub fn is_business_day(day: i32) -> (b: bool)
    ensures
        b == is_business_day_spec(day as int),
{
    // Shift by a multiple of 7 so that the remainder is taken of a
    // non-negative number.
    let shifted: i64 = day as i64 - 1 + 2147483653;
    let w: i64 = shifted % 7;
    assert(w == weekday_of(day as int)) by {
        lemma_shift_week(day as int - 1, 306783379);
    }
    w < 5
}

proof fn lemma_shift_week(x: int, k: nat)
    ensures
        (x + 7 * k) % 7 == x % 7,
    decreases k,
{
    if k > 0 {
        lemma_shift_week(x, (k - 1) as nat);
        vstd::arithmetic::div_mod::lemma_mod_add_multiples_vanish(x + 7 * (k - 1), 7);
        assert(x + 7 * (k - 1) + 7 == x + 7 * k) by (nonlinear_arith);
    }
}

/// Law: counting over consecutive ranges adds up; business days from `s`
/// to `e` are those from `s` to `m` plus those from `m` to `e`.
pub proof fn lemma_business_days_additive(s: int, m: int, e: int)
    requires
        s <= m <= e,
    ensures
        business_days_spec(s, e) == business_days_spec(s, m) + business_days_spec(m, e),
    decreases e - m,
{
    if e > m {
        lemma_business_days_additive(s, m, e - 1);
    }
}

/// Law: the count never exceeds the number of calendar days in the range
/// and is never negative.
pub proof fn lemma_business_days_bounds(s: int, e: int)
    ensures
        0 <= business_days_spec(s, e),
        s <= e ==> business_days_spec(s, e) <= e - s,
        e <= s ==> business_days_spec(s, e) == 0,
    decreases e - s,
{
    if e > s {
        lemma_business_days_bounds(s, e - 1);
    }
}

/// Law: any seven consecutive days hold exactly five business days.
pub proof fn lemma_business_days_full_week(s: int)
    ensures
        business_days_spec(s, s + 7) == 5,
{
    reveal_with_fuel(business_days_spec, 8);
    let w = weekday_of(s);
    assert(weekday_of(s + 1) == (w + 1) % 7);
    assert(weekday_of(s + 2) == (w + 2) % 7);
    assert(weekday_of(s + 3) == (w + 3) % 7);
    assert(weekday_of(s + 4) == (w + 4) % 7);
    assert(weekday_of(s + 5) == (w + 5) % 7);
    assert(weekday_of(s + 6) == (w + 6) % 7);
    assert(weekday_of(s + 7) == w);
    assert(0 <= w < 7);
}

/// Law: moving a range by whole weeks does not change its count.
pub proof fn lemma_business_days_weekly_shift(s: int, e: int)
    ensures
        business_days_spec(s + 7, e + 7) == business_days_spec(s, e),
    decreases e - s,
{
    if e > s {
        lemma_business_days_weekly_shift(s, e - 1);
        assert(weekday_of(e + 7) == weekday_of(e)) by {
            lemma_shift_week(e - 1, 1);
        }
    }
}

/// Law: a date string compared with itself spans no business day.
pub proof fn lemma_same_date_no_business_days(text: Seq<char>)
    ensures
        business_days_between_spec(text, text) == 0,
{
}

} // verus!
