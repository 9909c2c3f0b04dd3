//! Days of a calendar month.
use vstd::prelude::*;

verus! {

pub open spec fn is_leap_year(year: int) -> bool {
    (year % 4 == 0 && year % 100 != 0) || year % 400 == 0
}

pub open spec fn days_in_month(year: int, month: int) -> int {
    if month == 2 {
        if is_leap_year(year) {
            29
        } else {
            28
        }
    } else if month == 4 || month == 6 || month == 9 || month == 11 {
        30
    } else {
        31
    }
}

/// A day of the proleptic Gregorian calendar, within the years chrono can represent.
pub open spec fn is_calendar_date(year: int, month: int, day: int) -> bool {
    &&& -262143 <= year <= 262142
    &&& 1 <= month <= 12
    &&& 1 <= day <= days_in_month(year, month)
}

/// Relies on chrono's `NaiveDate::from_ymd_opt`: `Some` exactly for a valid day of the
/// proleptic Gregorian calendar in chrono's year range.
#[verifier::external_body]
fn calendar_date_exists(year: i32, month: u32, day: u32) -> (r: bool)
    ensures
        r == is_calendar_date(year as int, month as int, day as int),
{
    chrono::NaiveDate::from_ymd_opt(year, month, day).is_some()
}

/// The days among `1..=n` that `month` of `year` has, in order.
pub open spec fn month_days_up_to(year: int, month: int, n: nat) -> Seq<u32>
    decreases n,
{
    if n == 0 {
        Seq::empty()
    } else if is_calendar_date(year, month, n as int) {
        month_days_up_to(year, month, (n - 1) as nat).push(n as u32)
    } else {
        month_days_up_to(year, month, (n - 1) as nat)
    }
}

/// The days of `month` of `year`, in order: none when the month does not exist.
pub fn month_days(year: i32, month: u32) -> (r: Vec<u32>)
    ensures
        r@ == month_days_up_to(year as int, month as int, 31),
{
    let mut r: Vec<u32> = Vec::new();
    let mut day: u32 = 1;
    while day <= 31
        invariant
            1 <= day <= 32,
            r@ == month_days_up_to(year as int, month as int, (day - 1) as nat),
        decreases 32 - day,
    {
        if calendar_date_exists(year, month, day) {
            r.push(day);
        }
        day = day + 1;
    }
    r
}

} // verus!
