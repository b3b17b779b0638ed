//! Calendar dates as executable values, and the day arithmetic that is
//! delegated to `chrono`.

use crate::calendar::{
    day_in_range, days_in_month, is_leap_year, lemma_day_number_ordered, lemma_range_holds, Ymd,
    MAX_YEAR, MIN_YEAR,
};
use chrono::Datelike;
use vstd::prelude::*;

verus! {

/// A day of the week.
#[derive(Clone, Copy, Debug, PartialEq, Eq, Structural)]
pub enum Weekday {
    Mon,
    Tue,
    Wed,
    Thu,
    Fri,
    Sat,
    Sun,
}

impl Weekday {
    /// Days since Monday, 0 through 6.
    pub open spec fn index(self) -> int {
        match self {
            Weekday::Mon => 0,
            Weekday::Tue => 1,
            Weekday::Wed => 2,
            Weekday::Thu => 3,
            Weekday::Fri => 4,
            Weekday::Sat => 5,
            Weekday::Sun => 6,
        }
    }

    /// Days since Monday, as a number to compute with.
    pub fn days_from_monday(self) -> (n: u32)
        ensures
            n == self.index(),
    {
        match self {
            Weekday::Mon => 0,
            Weekday::Tue => 1,
            Weekday::Wed => 2,
            Weekday::Thu => 3,
            Weekday::Fri => 4,
            Weekday::Sat => 5,
            Weekday::Sun => 6,
        }
    }

    /// Whether the day is a Saturday or a Sunday.
    pub fn is_weekend(self) -> (w: bool)
        ensures
            w == (self.index() >= 5),
    {
        match self {
            Weekday::Sat | Weekday::Sun => true,
            _ => false,
        }
    }
}

/// Day arithmetic left the range of dates that can be represented.
#[derive(Clone, Copy, Debug, PartialEq, Eq, Structural)]
pub enum DateArithmeticError {
    /// The date asked for lies before the first representable date.
    BeforeFirstDate,
    /// The date asked for lies after the last representable date.
    AfterLastDate,
}

impl DateArithmeticError {
    /// The sentence that `message` returns.
    pub open spec fn message_text(self) -> Seq<char> {
        match self {
            DateArithmeticError::BeforeFirstDate => {
                "date out of range: before the first representable date"@
            },
            DateArithmeticError::AfterLastDate => {
                "date out of range: after the last representable date"@
            },
        }
    }

    /// A sentence for the user.
    pub fn message(&self) -> (text: &'static str)
        ensures
            text@ == self.message_text(),
    {
        match self {
            DateArithmeticError::BeforeFirstDate => {
                "date out of range: before the first representable date"
            },
            DateArithmeticError::AfterLastDate => {
                "date out of range: after the last representable date"
            },
        }
    }
}

/// A date of the proleptic Gregorian calendar, without a time of day.
///
/// Every value is a date that exists: the fields are private and each
/// constructor checks them.
#[derive(Clone, Copy, Debug, PartialEq, Eq, Structural)]
pub struct Date {
    year: i32,
    month: u32,
    day: u32,
}

impl View for Date {
    type V = Ymd;

    closed spec fn view(&self) -> Ymd {
        Ymd { year: self.year as int, month: self.month as int, day: self.day as int }
    }
}

/// Whether `year` has a 29th of February.
pub fn leap_year(year: i32) -> (leap: bool)
    ensures
        leap == is_leap_year(year as int),
{
    year % 4 == 0 && (year % 100 != 0 || year % 400 == 0)
}

/// Length of a month in days; `month` counts from 1.
pub fn month_length(year: i32, month: u32) -> (n: u32)
    ensures
        n == days_in_month(year as int, month as int),
{
    if month == 2 {
        if leap_year(year) {
            29
        } else {
            28
        }
    } else if month == 4 || month == 6 || month == 9 || month == 11 {
        30
    } else {
        31
    }
}

impl Date {
    /// Holds of every date: it exists in the calendar and is in range.
    #[verifier::type_invariant]
    pub open spec fn well_formed(self) -> bool {
        self@.valid()
    }

    /// The date with these fields, if there is one.
    pub fn from_ymd(year: i32, month: u32, day: u32) -> (r: Option<Date>)
        ensures
            r.is_some() <==> (Ymd { year: year as int, month: month as int, day: day as int }).valid(),
            r.is_some() ==> r.unwrap()@ == (Ymd {
                year: year as int,
                month: month as int,
                day: day as int,
            }),
    {
        if MIN_YEAR <= year && year <= MAX_YEAR && 1 <= month && month <= 12 && 1 <= day && day
            <= month_length(year, month) {
            Some(Date { year, month, day })
        } else {
            None
        }
    }

    /// The year; year 0 is the one before year 1.
    pub fn year(&self) -> (y: i32)
        ensures
            y == self@.year,
            self@.valid(),
    {
        proof {
            use_type_invariant(self);
        }
        self.year
    }

    /// Month of the year, 1 through 12.
    pub fn month(&self) -> (m: u32)
        ensures
            m == self@.month,
            self@.valid(),
    {
        proof {
            use_type_invariant(self);
        }
        self.month
    }

    /// Day of the month, 1 through 31.
    pub fn day(&self) -> (d: u32)
        ensures
            d == self@.day,
            self@.valid(),
    {
        proof {
            use_type_invariant(self);
        }
        self.day
    }

    /// The first day of this date's month.
    pub fn first_of_month(&self) -> (r: Date)
        ensures
            r@ == self@.first_of_month(),
            r@.valid(),
    {
        proof {
            use_type_invariant(self);
        }
        Date { year: self.year, month: self.month, day: 1 }
    }

    /// The last day of this date's month.
    pub fn last_of_month(&self) -> (r: Date)
        ensures
            r@ == self@.last_of_month(),
            r@.valid(),
    {
        proof {
            use_type_invariant(self);
        }
        Date { year: self.year, month: self.month, day: month_length(self.year, self.month) }
    }

    /// Whether both dates lie in the same month of the same year.
    pub fn same_month(&self, other: &Date) -> (same: bool)
        ensures
            same == self@.same_month(other@),
    {
        self.year == other.year && self.month == other.month
    }

    /// Whether this date comes before `other` in the calendar.
    pub fn precedes(&self, other: &Date) -> (before: bool)
        ensures
            before == self@.precedes(other@),
            before == (self@.day_number() < other@.day_number()),
    {
        proof {
            use_type_invariant(self);
            use_type_invariant(other);
            lemma_day_number_ordered(self@, other@);
        }
        self.year < other.year || (self.year == other.year && (self.month < other.month || (
        self.month == other.month && self.day < other.day)))
    }

    /// Two dates are the same value exactly when they show the same fields.
    pub proof fn lemma_view_determines(a: Date, b: Date)
        ensures
            (a@ == b@) <==> (a == b),
    {
    }
}

/// A week of the calendar: seven days from a Monday to the Sunday after it,
/// all of them representable dates.
#[derive(Clone, Copy, Debug, PartialEq, Eq, Structural)]
pub struct Week {
    first_day: Date,
    last_day: Date,
}

impl Week {
    /// The week's Monday.
    pub closed spec fn start(self) -> Ymd {
        self.first_day@
    }

    /// The week's Sunday.
    pub closed spec fn end(self) -> Ymd {
        self.last_day@
    }

    /// Holds of every week: it runs from a Monday to the Sunday six days
    /// later.
    #[verifier::type_invariant]
    pub open spec fn well_formed(self) -> bool {
        &&& self.start().valid()
        &&& self.end().valid()
        &&& self.start().weekday_index() == 0
        &&& self.end().day_number() == self.start().day_number() + 6
    }

    /// The week that `date` lies in. There is none where the week's Monday
    /// or its Sunday is not a representable date.
    pub fn containing(date: Date) -> (r: Result<Week, DateArithmeticError>)
        ensures
            r matches Ok(week) ==> {
                &&& week.well_formed()
                &&& week.start().day_number() == date@.day_number() - date@.weekday_index()
            },
            r.is_ok() <==> day_in_range(date@.day_number() - date@.weekday_index())
                && day_in_range(date@.day_number() - date@.weekday_index() + 6),
            r matches Err(e) ==> e == if day_in_range(
                date@.day_number() - date@.weekday_index(),
            ) {
                DateArithmeticError::AfterLastDate
            } else {
                DateArithmeticError::BeforeFirstDate
            },
    {
        proof {
            use_type_invariant(&date);
        }
        let first_day = match naive_week_first_day(date) {
            Some(day) => day,
            None => {
                return Err(DateArithmeticError::BeforeFirstDate);
            },
        };
        let last_day = match naive_week_last_day(date) {
            Some(day) => day,
            None => {
                return Err(DateArithmeticError::AfterLastDate);
            },
        };
        Ok(Week { first_day, last_day })
    }

    /// The week's Monday.
    pub fn first_day(&self) -> (day: Date)
        ensures
            day@ == self.start(),
            self.well_formed(),
    {
        proof {
            use_type_invariant(self);
        }
        self.first_day
    }

    /// The week's Sunday.
    pub fn last_day(&self) -> (day: Date)
        ensures
            day@ == self.end(),
            self.well_formed(),
    {
        proof {
            use_type_invariant(self);
        }
        self.last_day
    }

    /// The day of the week that lies `offset` days after its Monday.
    pub fn day(&self, offset: u64) -> (r: Option<Date>)
        ensures
            r.is_some() <==> offset < 7,
            r matches Some(day) ==> day@.valid() && day@.day_number() == self.start().day_number()
                + offset,
    {
        proof {
            use_type_invariant(self);
            lemma_range_holds(self.start());
            lemma_range_holds(self.end());
        }
        if offset < 7 {
            naive_add_days(self.first_day, offset)
        } else {
            None
        }
    }
}

/// `chrono::NaiveDate::succ_opt`, which gives the next calendar date and
/// nothing for the last representable one. Believed: the result is the date
/// one day later, and it is missing exactly when that day is out of range.
#[verifier::external_body]
pub(crate) fn naive_succ(d: Date) -> (r: Option<Date>)
    requires
        d@.valid(),
    ensures
        r.is_some() <==> day_in_range(d@.day_number() + 1),
        r.is_some() ==> r.unwrap()@.valid() && r.unwrap()@.day_number() == d@.day_number() + 1,
{
    let n = chrono::NaiveDate::from_ymd_opt(d.year, d.month, d.day).unwrap();
    match n.succ_opt() {
        Some(s) => Some(Date { year: s.year(), month: s.month(), day: s.day() }),
        None => None,
    }
}

/// `chrono::NaiveDate::pred_opt`, which gives the previous calendar date and
/// nothing for the first representable one. Believed: the result is the date
/// one day earlier, and it is missing exactly when that day is out of range.
#[verifier::external_body]
pub(crate) fn naive_pred(d: Date) -> (r: Option<Date>)
    requires
        d@.valid(),
    ensures
        r.is_some() <==> day_in_range(d@.day_number() - 1),
        r.is_some() ==> r.unwrap()@.valid() && r.unwrap()@.day_number() == d@.day_number() - 1,
{
    let n = chrono::NaiveDate::from_ymd_opt(d.year, d.month, d.day).unwrap();
    match n.pred_opt() {
        Some(p) => Some(Date { year: p.year(), month: p.month(), day: p.day() }),
        None => None,
    }
}

/// `chrono::NaiveDate::checked_add_days`, which adds a number of days and
/// gives nothing if the result would be out of range. Believed: the result
/// is the date `days` days later, and it is missing exactly when that day is
/// out of range.
#[verifier::external_body]
pub(crate) fn naive_add_days(d: Date, days: u64) -> (r: Option<Date>)
    requires
        d@.valid(),
    ensures
        r.is_some() <==> day_in_range(d@.day_number() + days),
        r.is_some() ==> r.unwrap()@.valid() && r.unwrap()@.day_number() == d@.day_number()
            + days,
{
    let n = chrono::NaiveDate::from_ymd_opt(d.year, d.month, d.day).unwrap();
    match n.checked_add_days(chrono::Days::new(days)) {
        Some(s) => Some(Date { year: s.year(), month: s.month(), day: s.day() }),
        None => None,
    }
}

/// `chrono::NaiveDate::checked_sub_days`, which subtracts a number of days
/// and gives nothing if the result would be out of range. Believed: the
/// result is the date `days` days earlier, and it is missing exactly when
/// that day is out of range.
#[verifier::external_body]
pub(crate) fn naive_sub_days(d: Date, days: u64) -> (r: Option<Date>)
    requires
        d@.valid(),
    ensures
        r.is_some() <==> day_in_range(d@.day_number() - days),
        r.is_some() ==> r.unwrap()@.valid() && r.unwrap()@.day_number() == d@.day_number()
            - days,
{
    let n = chrono::NaiveDate::from_ymd_opt(d.year, d.month, d.day).unwrap();
    match n.checked_sub_days(chrono::Days::new(days)) {
        Some(s) => Some(Date { year: s.year(), month: s.month(), day: s.day() }),
        None => None,
    }
}

/// `chrono::Datelike::weekday` on a `NaiveDate`. Believed: the result is the
/// day of the week that the day count gives, with 0001-01-01 a Monday.
#[verifier::external_body]
pub(crate) fn naive_weekday(d: Date) -> (w: Weekday)
    requires
        d@.valid(),
    ensures
        w.index() == d@.weekday_index(),
{
    let n = chrono::NaiveDate::from_ymd_opt(d.year, d.month, d.day).unwrap();
    match n.weekday() {
        chrono::Weekday::Mon => Weekday::Mon,
        chrono::Weekday::Tue => Weekday::Tue,
        chrono::Weekday::Wed => Weekday::Wed,
        chrono::Weekday::Thu => Weekday::Thu,
        chrono::Weekday::Fri => Weekday::Fri,
        chrono::Weekday::Sat => Weekday::Sat,
        chrono::Weekday::Sun => Weekday::Sun,
    }
}

/// `chrono::NaiveWeek::checked_first_day` of the Monday-based week that
/// `chrono::NaiveDate::week` forms around a date. Believed: the result is
/// the Monday on or before the date, and it is missing exactly when that
/// Monday is out of range.
#[verifier::external_body]
pub(crate) fn naive_week_first_day(d: Date) -> (r: Option<Date>)
    requires
        d@.valid(),
    ensures
        r.is_some() <==> day_in_range(d@.day_number() - d@.weekday_index()),
        r.is_some() ==> r.unwrap()@.valid() && r.unwrap()@.day_number() == d@.day_number()
            - d@.weekday_index(),
{
    let n = chrono::NaiveDate::from_ymd_opt(d.year, d.month, d.day).unwrap();
    match n.week(chrono::Weekday::Mon).checked_first_day() {
        Some(f) => Some(Date { year: f.year(), month: f.month(), day: f.day() }),
        None => None,
    }
}

/// `chrono::NaiveWeek::checked_last_day` of the Monday-based week that
/// `chrono::NaiveDate::week` forms around a date. Believed: the result is
/// the Sunday on or after the date, and it is missing exactly when that
/// Sunday is out of range.
#[verifier::external_body]
pub(crate) fn naive_week_last_day(d: Date) -> (r: Option<Date>)
    requires
        d@.valid(),
    ensures
        r.is_some() <==> day_in_range(d@.day_number() + 6 - d@.weekday_index()),
        r.is_some() ==> r.unwrap()@.valid() && r.unwrap()@.day_number() == d@.day_number() + 6
            - d@.weekday_index(),
{
    let n = chrono::NaiveDate::from_ymd_opt(d.year, d.month, d.day).unwrap();
    match n.week(chrono::Weekday::Mon).checked_last_day() {
        Some(l) => Some(Date { year: l.year(), month: l.month(), day: l.day() }),
        None => None,
    }
}

/// `chrono::Local::now` followed by `chrono::DateTime::date_naive`: the
/// current date on the local clock. Believed: whatever the clock says, the
/// result is a date that exists and is in range.
#[verifier::external_body]
pub(crate) fn local_today() -> (r: Date)
    ensures
        r@.valid(),
{
    let n = chrono::Local::now().date_naive();
    Date { year: n.year(), month: n.month(), day: n.day() }
}

} // verus!
