use bdays::HolidayCalendar;
use vstd::prelude::*;

use crate::time::{weekend_day, CalDate};

verus! {

/// Whether the day with the given day number is a business day of the US settlement
/// calendar (weekdays that are not federal holidays).
pub uninterp spec fn us_settlement_business_day(day: int) -> bool;

/// Relies on bdays' `USSettlement::is_bday`: the answer depends on the day alone, and a
/// Saturday or a Sunday is never a business day.
#[verifier::external_body]
fn is_us_business_day(d: CalDate) -> (r: bool)
    requires
        d.wf(),
    ensures
        r == us_settlement_business_day(d.day as int),
        d.is_weekend() ==> !r,
{
    bdays::calendars::us::USSettlement.is_bday(
        chrono::NaiveDate::from_num_days_from_ce_opt(d.day).unwrap(),
    )
}

/// Number of business days among the day numbers `start, start + 1, ..., end - 1`.
pub open spec fn business_days_between(start: int, end: int) -> nat
    decreases end - start,
{
    if start >= end {
        0
    } else {
        business_days_between(start, end - 1) + if us_settlement_business_day(end - 1) {
            1nat
        } else {
            0nat
        }
    }
}

/// Number of Monday-to-Friday days among the day numbers `start, ..., end - 1`.
pub open spec fn weekdays_between(start: int, end: int) -> nat
    decreases end - start,
{
    if start >= end {
        0
    } else {
        weekdays_between(start, end - 1) + if weekend_day(end - 1) {
            0nat
        } else {
            1nat
        }
    }
}

proof fn lemma_count_at_most_span(start: int, end: int)
    requires
        start <= end,
    ensures
        business_days_between(start, end) <= end - start,
    decreases end - start,
{
    if start < end {
        lemma_count_at_most_span(start, end - 1);
    }
}

/// Counts the business days in the half-open range `[start, end)`; 0 when `start >= end`.
pub fn count_business_days(start: CalDate, end: CalDate) -> (r: i64)
    requires
        start.wf(),
        end.wf(),
    ensures
        r == business_days_between(start.day as int, end.day as int),
        r >= 0,
        r <= weekdays_between(start.day as int, end.day as int),
{
    if start.day >= end.day {
        return 0;
    }
    let mut count: i64 = 0;
    let mut day: i32 = start.day;
    while day < end.day
        invariant
            start.wf(),
            end.wf(),
            start.day <= day <= end.day,
            count == business_days_between(start.day as int, day as int),
            count <= weekdays_between(start.day as int, day as int),
        decreases end.day - day,
    {
        proof {
            lemma_count_at_most_span(start.day as int, day as int);
        }
        if is_us_business_day(CalDate { day }) {
            count = count + 1;
        }
        day = day + 1;
    }
    count
}

/// An empty range holds no business day: counting from a day to itself gives 0.
pub proof fn lemma_count_same_day(d: CalDate)
    ensures
        business_days_between(d.day as int, d.day as int) == 0,
{
}

/// With the start fixed, the count never decreases as the end moves later.
pub proof fn lemma_count_monotonic(start: CalDate, end1: CalDate, end2: CalDate)
    requires
        start.day <= end1.day <= end2.day,
    ensures
        business_days_between(start.day as int, end1.day as int) <= business_days_between(
            start.day as int,
            end2.day as int,
        ),
    decreases end2.day - end1.day,
{
    if end1.day < end2.day {
        lemma_count_monotonic(start, end1, CalDate { day: (end2.day - 1) as i32 });
    }
}

} // verus!
