//! The proleptic Gregorian calendar as plain integer arithmetic.
//!
//! Everything here is specification and proof: a civil date is a triple of
//! integers, and its position in time is its day number, counted so that
//! 1 January of year 1 is day 1 (a Monday).

use vstd::prelude::*;

verus! {

/// Earliest year a date may lie in.
pub const MIN_YEAR: i32 = -262143;

/// Latest year a date may lie in.
pub const MAX_YEAR: i32 = 262142;

/// A civil date as mathematical integers.
pub struct Ymd {
    pub year: int,
    pub month: int,
    pub day: int,
}

/// Whether `year` has a 29th of February.
pub open spec fn is_leap_year(year: int) -> bool {
    year % 4 == 0 && (year % 100 != 0 || year % 400 == 0)
}

/// Length of a year in days.
pub open spec fn days_in_year(year: int) -> int {
    if is_leap_year(year) {
        366
    } else {
        365
    }
}

/// Length of a month in days; `month` counts from 1.
pub open spec fn days_in_month(year: int, month: int) -> int {
    if month == 2 {
        if is_leap_year(year) {
            29
        } else {
            28
        }
    } else if month == 4 || month == 6 || month == 9 || month == 11 {
        30
    } else {
        31
    }
}

/// Days of `year` that lie before the first of `month`.
pub open spec fn days_before_month(year: int, month: int) -> int
    decreases month,
{
    if month <= 1 {
        0
    } else {
        days_before_month(year, month - 1) + days_in_month(year, month - 1)
    }
}

/// Days between 1 January of year 1 and 1 January of `year`
/// (negative for earlier years).
pub open spec fn days_before_year(year: int) -> int {
    let p = year - 1;
    365 * p + p / 4 - p / 100 + p / 400
}

impl Ymd {
    /// The date exists in the calendar and its year is representable.
    pub open spec fn valid(self) -> bool {
        &&& MIN_YEAR <= self.year <= MAX_YEAR
        &&& 1 <= self.month <= 12
        &&& 1 <= self.day <= days_in_month(self.year, self.month)
    }

    /// Position of the date in time; 0001-01-01 is day 1.
    pub open spec fn day_number(self) -> int {
        days_before_year(self.year) + days_before_month(self.year, self.month) + self.day
    }

    /// Day of the week, 0 for Monday through 6 for Sunday.
    pub open spec fn weekday_index(self) -> int {
        (self.day_number() - 1) % 7
    }

    /// Whether the date is a Saturday or a Sunday.
    pub open spec fn is_weekend(self) -> bool {
        self.weekday_index() >= 5
    }

    /// Calendar order: by year, then month, then day.
    pub open spec fn precedes(self, other: Ymd) -> bool {
        self.year < other.year || (self.year == other.year && (self.month < other.month || (
        self.month == other.month && self.day < other.day)))
    }

    /// Whether both dates lie in the same month of the same year.
    pub open spec fn same_month(self, other: Ymd) -> bool {
        self.year == other.year && self.month == other.month
    }

    /// The first day of the date's month.
    pub open spec fn first_of_month(self) -> Ymd {
        Ymd { year: self.year, month: self.month, day: 1 }
    }

    /// The last day of the date's month.
    pub open spec fn last_of_month(self) -> Ymd {
        Ymd { year: self.year, month: self.month, day: days_in_month(self.year, self.month) }
    }

    /// The first day of the following month.
    pub open spec fn first_of_next_month(self) -> Ymd {
        if self.month >= 12 {
            Ymd { year: self.year + 1, month: 1, day: 1 }
        } else {
            Ymd { year: self.year, month: self.month + 1, day: 1 }
        }
    }

    /// The last day of the preceding month.
    pub open spec fn last_of_previous_month(self) -> Ymd {
        if self.month <= 1 {
            Ymd { year: self.year - 1, month: 12, day: 31 }
        } else {
            Ymd {
                year: self.year,
                month: self.month - 1,
                day: days_in_month(self.year, self.month - 1),
            }
        }
    }

    /// The date `days` days away, for a shift of at most four weeks either
    /// way: the day of the month moves by `days`, and where it leaves the
    /// month it is counted on into the next month or back from the end of
    /// the previous one.
    pub open spec fn shifted(self, days: int) -> Ymd {
        let day = self.day + days;
        if day < 1 {
            let before = self.last_of_previous_month();
            Ymd { year: before.year, month: before.month, day: before.day + day }
        } else if day > days_in_month(self.year, self.month) {
            let after = self.first_of_next_month();
            Ymd {
                year: after.year,
                month: after.month,
                day: day - days_in_month(self.year, self.month),
            }
        } else {
            Ymd { year: self.year, month: self.month, day }
        }
    }
}

/// The first representable date.
pub open spec fn min_ymd() -> Ymd {
    Ymd { year: MIN_YEAR as int, month: 1, day: 1 }
}

/// The last representable date.
pub open spec fn max_ymd() -> Ymd {
    Ymd { year: MAX_YEAR as int, month: 12, day: 31 }
}

/// A day number that some representable date has.
pub open spec fn day_in_range(n: int) -> bool {
    min_ymd().day_number() <= n <= max_ymd().day_number()
}

/// The days before each month of a year, written out.
pub proof fn lemma_days_before_month(year: int)
    ensures
        days_before_month(year, 1) == 0,
        days_before_month(year, 2) == 31,
        days_before_month(year, 3) == days_in_year(year) - 306,
        days_before_month(year, 4) == days_in_year(year) - 275,
        days_before_month(year, 5) == days_in_year(year) - 245,
        days_before_month(year, 6) == days_in_year(year) - 214,
        days_before_month(year, 7) == days_in_year(year) - 184,
        days_before_month(year, 8) == days_in_year(year) - 153,
        days_before_month(year, 9) == days_in_year(year) - 122,
        days_before_month(year, 10) == days_in_year(year) - 92,
        days_before_month(year, 11) == days_in_year(year) - 61,
        days_before_month(year, 12) == days_in_year(year) - 31,
        days_before_month(year, 13) == days_in_year(year),
{
    reveal_with_fuel(days_before_month, 14);
}

/// A year is as long as the distance between its first day and the next
/// year's first day.
pub proof fn lemma_year_length(year: int)
    ensures
        days_before_year(year + 1) == days_before_year(year) + days_in_year(year),
{
}

/// Later years start later, by at least 365 days a year.
pub proof fn lemma_years_apart(earlier: int, later: int)
    requires
        earlier <= later,
    ensures
        days_before_year(later) >= days_before_year(earlier) + 365 * (later - earlier),
    decreases later - earlier,
{
    if earlier < later {
        lemma_years_apart(earlier, later - 1);
        lemma_year_length(later - 1);
    }
}

/// A date lies within its own year.
pub proof fn lemma_day_within_year(d: Ymd)
    requires
        1 <= d.month <= 12,
        1 <= d.day <= days_in_month(d.year, d.month),
    ensures
        1 <= days_before_month(d.year, d.month) + d.day <= days_in_year(d.year),
{
    lemma_days_before_month(d.year);
}

/// Day numbers follow calendar order.
pub proof fn lemma_day_number_ordered(a: Ymd, b: Ymd)
    requires
        1 <= a.month <= 12,
        1 <= a.day <= days_in_month(a.year, a.month),
        1 <= b.month <= 12,
        1 <= b.day <= days_in_month(b.year, b.month),
    ensures
        a.precedes(b) <==> a.day_number() < b.day_number(),
        a == b <==> a.day_number() == b.day_number(),
{
    lemma_day_within_year(a);
    lemma_day_within_year(b);
    lemma_days_before_month(a.year);
    lemma_days_before_month(b.year);
    if a.year < b.year {
        lemma_years_apart(a.year + 1, b.year);
        lemma_year_length(a.year);
    } else if b.year < a.year {
        lemma_years_apart(b.year + 1, a.year);
        lemma_year_length(b.year);
    }
}

/// Every valid date has a day number in range.
pub proof fn lemma_range_holds(d: Ymd)
    requires
        d.valid(),
    ensures
        day_in_range(d.day_number()),
{
    lemma_day_number_ordered(min_ymd(), d);
    lemma_day_number_ordered(d, max_ymd());
}

/// A month is the stretch of days from its first to its last.
pub proof fn lemma_month_span(d: Ymd, anchor: Ymd)
    requires
        d.valid(),
        anchor.valid(),
    ensures
        d.same_month(anchor) <==> anchor.first_of_month().day_number() <= d.day_number()
            <= anchor.last_of_month().day_number(),
        anchor.last_of_month().day_number() == anchor.first_of_month().day_number()
            + days_in_month(anchor.year, anchor.month) - 1,
        anchor.first_of_month().valid(),
        anchor.last_of_month().valid(),
{
    lemma_day_number_ordered(d, anchor.first_of_month());
    lemma_day_number_ordered(d, anchor.last_of_month());
}

/// Unless a month is the last one in range, the four weeks after its last
/// day are in range too.
pub proof fn lemma_room_after_month(d: Ymd)
    requires
        d.valid(),
    ensures
        d.last_of_month() == max_ymd() || d.last_of_month().day_number() + 28
            <= max_ymd().day_number(),
{
    lemma_days_before_month(d.year);
    lemma_days_before_month(d.year + 1);
    if d.month < 12 {
        let later = Ymd { year: d.year, month: d.month + 1, day: 28 };
        assert(later.day_number() == d.last_of_month().day_number() + 28);
        lemma_range_holds(later);
    } else if d.year < MAX_YEAR {
        let later = Ymd { year: d.year + 1, month: 1, day: 28 };
        lemma_year_length(d.year);
        assert(later.day_number() == d.last_of_month().day_number() + 28);
        lemma_range_holds(later);
    }
}

/// A shift of at most four weeks leads to a valid date exactly when the
/// day that many days away is in range, and that day is then the date it
/// leads to.
pub proof fn lemma_shifted_day_number(d: Ymd, days: int)
    requires
        d.valid(),
        -28 <= days <= 28,
    ensures
        d.shifted(days).valid() <==> day_in_range(d.day_number() + days),
        d.shifted(days).valid() ==> d.shifted(days).day_number() == d.day_number() + days,
{
    lemma_year_length(d.year);
    lemma_year_length(d.year - 1);
    lemma_days_before_month(d.year);
    lemma_days_before_month(d.year + 1);
    lemma_days_before_month(d.year - 1);
    lemma_days_before_month(MIN_YEAR as int);
    lemma_days_before_month(MAX_YEAR as int);
    lemma_range_holds(d);
    let to = d.shifted(days);
    if to.year > MAX_YEAR {
        assert(to.day_number() == d.day_number() + days);
        lemma_years_apart(MAX_YEAR + 1, to.year);
    } else if to.year < MIN_YEAR {
        assert(to.day_number() == d.day_number() + days);
        lemma_years_apart(to.year + 1, MIN_YEAR as int);
    } else {
        assert(to.valid());
        lemma_range_holds(to);
    }
}

/// Two valid dates with the same day number are the same date.
pub proof fn lemma_day_number_determines(a: Ymd, b: Ymd)
    requires
        a.valid(),
        b.valid(),
        a.day_number() == b.day_number(),
    ensures
        a == b,
{
    lemma_day_number_ordered(a, b);
}

} // verus!
