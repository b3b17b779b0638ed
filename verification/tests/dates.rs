use chrono::Datelike;
use termcal::calendar::{MAX_YEAR, MIN_YEAR};
use termcal::date::{leap_year, month_length, Date, DateArithmeticError, Week, Weekday};

fn date(year: i32, month: u32, day: u32) -> Date {
    Date::from_ymd(year, month, day).expect("a date that exists")
}

// The day count that the contracts are stated over, written out in plain
// arithmetic: 0001-01-01 is day 1.
fn day_number(year: i32, month: u32, day: u32) -> i64 {
    let p = i64::from(year) - 1;
    let before_year = 365 * p + p.div_euclid(4) - p.div_euclid(100) + p.div_euclid(400);
    let mut before_month: i64 = 0;
    let mut m: u32 = 1;
    while m < month {
        before_month += i64::from(month_length(year, m));
        m += 1;
    }
    before_year + before_month + i64::from(day)
}

#[test]
fn from_ymd_accepts_dates_that_exist() {
    let d = date(2024, 2, 29);
    assert_eq!((d.year(), d.month(), d.day()), (2024, 2, 29));
    assert!(Date::from_ymd(2000, 2, 29).is_some());
    assert!(Date::from_ymd(2024, 12, 31).is_some());
    assert!(Date::from_ymd(2024, 1, 1).is_some());
    assert!(Date::from_ymd(0, 2, 29).is_some());
    assert!(Date::from_ymd(-1, 3, 31).is_some());
    assert!(Date::from_ymd(MIN_YEAR, 1, 1).is_some());
    assert!(Date::from_ymd(MAX_YEAR, 12, 31).is_some());
}

#[test]
fn from_ymd_rejects_dates_that_do_not_exist() {
    assert!(Date::from_ymd(2023, 2, 29).is_none());
    assert!(Date::from_ymd(1900, 2, 29).is_none());
    assert!(Date::from_ymd(2024, 2, 30).is_none());
    assert!(Date::from_ymd(2024, 4, 31).is_none());
    assert!(Date::from_ymd(2024, 1, 32).is_none());
    assert!(Date::from_ymd(2024, 0, 1).is_none());
    assert!(Date::from_ymd(2024, 13, 1).is_none());
    assert!(Date::from_ymd(2024, 1, 0).is_none());
    assert!(Date::from_ymd(MIN_YEAR - 1, 12, 31).is_none());
    assert!(Date::from_ymd(MAX_YEAR + 1, 1, 1).is_none());
    assert!(Date::from_ymd(i32::MAX, 1, 1).is_none());
    assert!(Date::from_ymd(i32::MIN, 1, 1).is_none());
    assert!(Date::from_ymd(2024, u32::MAX, 1).is_none());
    assert!(Date::from_ymd(2024, 1, u32::MAX).is_none());
}

#[test]
fn from_ymd_agrees_with_chrono_on_what_exists() {
    for year in [MIN_YEAR - 1, MIN_YEAR, -400, -1, 0, 1, 1900, 2000, 2023, 2024, MAX_YEAR, MAX_YEAR + 1] {
        for month in 0..=13 {
            for day in 0..=32 {
                let ours = Date::from_ymd(year, month, day).is_some();
                let theirs = chrono::NaiveDate::from_ymd_opt(year, month, day).is_some();
                assert_eq!(ours, theirs, "{year}-{month}-{day}");
            }
        }
    }
}

#[test]
fn the_range_is_the_one_chrono_has() {
    let min = chrono::NaiveDate::MIN;
    let max = chrono::NaiveDate::MAX;
    assert_eq!((min.year(), min.month(), min.day()), (MIN_YEAR, 1, 1));
    assert_eq!((max.year(), max.month(), max.day()), (MAX_YEAR, 12, 31));
}

#[test]
fn leap_years_follow_the_gregorian_rule() {
    assert!(leap_year(2024));
    assert!(leap_year(2000));
    assert!(leap_year(0));
    assert!(leap_year(-4));
    assert!(leap_year(-400));
    assert!(!leap_year(2023));
    assert!(!leap_year(1900));
    assert!(!leap_year(2100));
    assert!(!leap_year(-1));
    assert!(!leap_year(-100));
}

#[test]
fn month_lengths() {
    let common = [31, 28, 31, 30, 31, 30, 31, 31, 30, 31, 30, 31];
    let leap = [31, 29, 31, 30, 31, 30, 31, 31, 30, 31, 30, 31];
    for month in 1..=12u32 {
        assert_eq!(month_length(2023, month), common[month as usize - 1]);
        assert_eq!(month_length(2024, month), leap[month as usize - 1]);
    }
}

#[test]
fn first_and_last_of_month() {
    let d = date(2024, 2, 17);
    let first = d.first_of_month();
    let last = d.last_of_month();
    assert_eq!((first.year(), first.month(), first.day()), (2024, 2, 1));
    assert_eq!((last.year(), last.month(), last.day()), (2024, 2, 29));
    let last = date(2023, 2, 1).last_of_month();
    assert_eq!((last.year(), last.month(), last.day()), (2023, 2, 28));
    let last = date(2023, 12, 31).last_of_month();
    assert_eq!((last.year(), last.month(), last.day()), (2023, 12, 31));
}

#[test]
fn same_month_needs_the_same_year() {
    assert!(date(2024, 3, 1).same_month(&date(2024, 3, 31)));
    assert!(!date(2024, 3, 1).same_month(&date(2023, 3, 1)));
    assert!(!date(2024, 3, 1).same_month(&date(2024, 4, 1)));
}

#[test]
fn precedes_is_calendar_order() {
    assert!(date(2023, 12, 31).precedes(&date(2024, 1, 1)));
    assert!(date(2024, 1, 31).precedes(&date(2024, 2, 1)));
    assert!(date(2024, 2, 1).precedes(&date(2024, 2, 2)));
    assert!(date(-1, 12, 31).precedes(&date(0, 1, 1)));
    assert!(!date(2024, 2, 2).precedes(&date(2024, 2, 2)));
    assert!(!date(2024, 2, 3).precedes(&date(2024, 2, 2)));
    assert!(!date(2025, 1, 1).precedes(&date(2024, 12, 31)));
}

#[test]
fn weekdays_count_from_monday() {
    let all = [
        Weekday::Mon,
        Weekday::Tue,
        Weekday::Wed,
        Weekday::Thu,
        Weekday::Fri,
        Weekday::Sat,
        Weekday::Sun,
    ];
    for (i, day) in all.iter().enumerate() {
        assert_eq!(day.days_from_monday() as usize, i);
        assert_eq!(day.is_weekend(), i >= 5);
    }
}

#[test]
fn day_count_is_the_one_chrono_counts() {
    let mut samples = vec![
        (1, 1, 1),
        (1970, 1, 1),
        (2024, 2, 29),
        (2024, 3, 1),
        (2000, 12, 31),
        (1900, 3, 1),
        (0, 12, 31),
        (0, 2, 29),
        (-1, 1, 1),
        (-400, 2, 29),
        (-401, 12, 31),
        (MIN_YEAR, 1, 1),
        (MIN_YEAR, 12, 31),
        (MAX_YEAR, 1, 1),
        (MAX_YEAR, 12, 31),
    ];
    for year in [-801, -100, -5, 3, 99, 100, 399, 400, 1999, 2023, 2024, 2100] {
        for month in 1..=12 {
            samples.push((year, month, 1));
            samples.push((year, month, month_length(year, month)));
        }
    }
    for (year, month, day) in samples {
        let theirs = chrono::NaiveDate::from_ymd_opt(year, month, day).expect("a date that exists");
        assert_eq!(i64::from(theirs.num_days_from_ce()), day_number(year, month, day));
        assert_eq!(
            i64::from(theirs.weekday().num_days_from_monday()),
            (day_number(year, month, day) - 1).rem_euclid(7)
        );
    }
}

#[test]
fn day_count_at_known_dates() {
    assert_eq!(day_number(1, 1, 1), 1);
    assert_eq!(day_number(1970, 1, 1), 719_163);
    assert_eq!(day_number(2024, 3, 1), 738_946);
    assert_eq!(day_number(MIN_YEAR, 1, 1), -95_746_129);
    assert_eq!(day_number(MAX_YEAR, 12, 31), 95_745_399);
}

fn bounds(week: Week) -> ((i32, u32, u32), (i32, u32, u32)) {
    let first = week.first_day();
    let last = week.last_day();
    ((first.year(), first.month(), first.day()), (last.year(), last.month(), last.day()))
}

#[test]
fn a_week_runs_from_monday_to_sunday() {
    // 1 March 2024 is a Friday
    let week = Week::containing(date(2024, 3, 1)).expect("in range");
    assert_eq!(bounds(week), ((2024, 2, 26), (2024, 3, 3)));
    // a Monday begins its week, a Sunday ends it
    assert_eq!(bounds(Week::containing(date(2024, 2, 26)).expect("in range")), bounds(week));
    assert_eq!(bounds(Week::containing(date(2024, 3, 3)).expect("in range")), bounds(week));
    let next = Week::containing(date(2024, 3, 4)).expect("in range");
    assert_eq!(bounds(next), ((2024, 3, 4), (2024, 3, 10)));
    let new_year = Week::containing(date(2025, 1, 1)).expect("in range");
    assert_eq!(bounds(new_year), ((2024, 12, 30), (2025, 1, 5)));
}

#[test]
fn the_days_of_a_week() {
    let week = Week::containing(date(2024, 2, 29)).expect("in range");
    let expected = [(2, 26), (2, 27), (2, 28), (2, 29), (3, 1), (3, 2), (3, 3)];
    for (offset, (month, day)) in expected.iter().enumerate() {
        let d = week.day(offset as u64).expect("a day of the week");
        assert_eq!((d.year(), d.month(), d.day()), (2024, *month, *day));
    }
    assert_eq!(week.day(7), None);
    assert_eq!(week.day(u64::MAX), None);
}

#[test]
fn weeks_agree_with_chrono() {
    for (year, month, day) in [(2024, 3, 1), (1, 1, 1), (0, 12, 31), (-400, 2, 29), (1999, 12, 31)] {
        let theirs = chrono::NaiveDate::from_ymd_opt(year, month, day)
            .expect("a date that exists")
            .week(chrono::Weekday::Mon);
        let (first, last) = bounds(Week::containing(date(year, month, day)).expect("in range"));
        let (f, l) = (theirs.first_day(), theirs.last_day());
        assert_eq!(first, (f.year(), f.month(), f.day()));
        assert_eq!(last, (l.year(), l.month(), l.day()));
    }
}

#[test]
fn no_week_reaches_past_the_ends_of_the_range() {
    // the first date is a Thursday, the last one a Monday
    for day in 1..=4 {
        assert_eq!(
            Week::containing(date(MIN_YEAR, 1, day)),
            Err(DateArithmeticError::BeforeFirstDate)
        );
    }
    let first = Week::containing(date(MIN_YEAR, 1, 5)).expect("in range");
    assert_eq!(bounds(first), ((MIN_YEAR, 1, 5), (MIN_YEAR, 1, 11)));
    assert_eq!(
        Week::containing(date(MAX_YEAR, 12, 31)),
        Err(DateArithmeticError::AfterLastDate)
    );
    let last = Week::containing(date(MAX_YEAR, 12, 30)).expect("in range");
    assert_eq!(bounds(last), ((MAX_YEAR, 12, 24), (MAX_YEAR, 12, 30)));
}
