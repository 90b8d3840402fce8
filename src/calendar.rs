use vstd::prelude::*;

verus! {

/// Earliest year that a calendar date can have.
pub const MIN_YEAR: i32 = -262143;

/// Latest year that a calendar date can have.
pub const MAX_YEAR: i32 = 262142;

/// A day of the proleptic Gregorian calendar.
#[derive(Debug, Clone, Copy, PartialEq, Eq, Structural)]
pub struct CalendarDate {
    pub year: i32,
    pub month: u32,
    pub day: u32,
}

#[derive(Debug, Clone, Copy, PartialEq, Eq, Structural)]
pub enum DateError {
    /// The month is not 1 to 12, or a bound falls outside the calendar's years.
    InvalidDate,
}

/// The first day of `month` in `year` is a date of the calendar.
pub open spec fn first_day_exists(year: int, month: int) -> bool {
    1 <= month <= 12 && MIN_YEAR <= year <= MAX_YEAR
}

/// Relies on chrono's `NaiveDate::from_ymd_opt`: the first of a month exists
/// exactly for months 1 to 12 of the years from `NaiveDate::MIN` to
/// `NaiveDate::MAX`.
#[verifier::external_body]
fn first_day_is_valid(year: i32, month: u32) -> (r: bool)
    ensures
        r == first_day_exists(year as int, month as int),
{
    chrono::NaiveDate::from_ymd_opt(year, month, 1).is_some()
}

/// First day of a month and first day of the next: the month is the dates
/// from the first, included, to the second, excluded.
pub fn month_bounds(year: i32, month: u32) -> (r: Result<(CalendarDate, CalendarDate), DateError>)
    ensures
        r is Ok <==> first_day_exists(year as int, month as int) && (month == 12 ==> year < MAX_YEAR),
        r matches Ok((start, end)) ==> start == (CalendarDate { year, month, day: 1 }) && end == if month
            == 12 {
            CalendarDate { year: (year + 1) as i32, month: 1, day: 1 }
        } else {
            CalendarDate { year, month: (month + 1) as u32, day: 1 }
        },
        r matches Err(e) ==> e == DateError::InvalidDate,
{
    if !first_day_is_valid(year, month) {
        return Err(DateError::InvalidDate);
    }
    let start = CalendarDate { year, month, day: 1 };
    let end = if month == 12 {
        if !first_day_is_valid(year + 1, 1) {
            return Err(DateError::InvalidDate);
        }
        CalendarDate { year: year + 1, month: 1, day: 1 }
    } else {
        if !first_day_is_valid(year, month + 1) {
            return Err(DateError::InvalidDate);
        }
        CalendarDate { year, month: month + 1, day: 1 }
    };
    Ok((start, end))
}

} // verus!
