//! What the frame around the grid shows and how the grid is spaced: the
//! title, the weekday header, the height of a row and the gap between
//! columns.

use crate::calendar::Ymd;
use crate::date::{Date, Weekday};
use vstd::prelude::*;
use vstd::string::StringExecFns;

verus! {

/// Rows of the viewport that the border and the header take.
pub const RESERVED_ROWS: u16 = 4;

/// The most weeks a month can touch.
pub const MAX_WEEKS: u16 = 6;

/// The narrowest viewport that shows weekday names in full.
pub const FULL_NAMES_WIDTH: u16 = 80;

/// Below this width the columns are set one cell apart.
pub const SPACED_BELOW_WIDTH: u16 = 40;

/// Height of a week's row: a sixth of what the border and header leave,
/// and never less than one line.
pub open spec fn row_height_for(viewport_height: int) -> int {
    let share = (viewport_height - RESERVED_ROWS) / (MAX_WEEKS as int);
    if share > 1 {
        share
    } else {
        1
    }
}

/// Gap between two columns: one cell in a viewport narrower than 40 cells,
/// none in a wider one.
pub open spec fn column_spacing_for(viewport_width: int) -> int {
    if viewport_width < SPACED_BELOW_WIDTH {
        1
    } else {
        0
    }
}

/// Whether the viewport is wide enough for weekday names in full.
pub open spec fn full_names_for(viewport_width: int) -> bool {
    viewport_width >= FULL_NAMES_WIDTH
}

/// The name of a weekday, by its index from Monday.
pub open spec fn weekday_name(index: int, full: bool) -> Seq<char> {
    if full {
        if index == 0 {
            "Monday"@
        } else if index == 1 {
            "Tuesday"@
        } else if index == 2 {
            "Wednesday"@
        } else if index == 3 {
            "Thursday"@
        } else if index == 4 {
            "Friday"@
        } else if index == 5 {
            "Saturday"@
        } else {
            "Sunday"@
        }
    } else {
        if index == 0 {
            "Mon"@
        } else if index == 1 {
            "Tue"@
        } else if index == 2 {
            "Wed"@
        } else if index == 3 {
            "Thu"@
        } else if index == 4 {
            "Fri"@
        } else if index == 5 {
            "Sat"@
        } else {
            "Sun"@
        }
    }
}

/// The character of a decimal digit.
pub open spec fn digit_char(digit: int) -> char {
    if digit == 0 {
        '0'
    } else if digit == 1 {
        '1'
    } else if digit == 2 {
        '2'
    } else if digit == 3 {
        '3'
    } else if digit == 4 {
        '4'
    } else if digit == 5 {
        '5'
    } else if digit == 6 {
        '6'
    } else if digit == 7 {
        '7'
    } else if digit == 8 {
        '8'
    } else {
        '9'
    }
}

/// A natural number in decimal, without leading zeros.
pub open spec fn decimal(n: nat) -> Seq<char>
    decreases n,
{
    if n < 10 {
        seq![digit_char(n as int)]
    } else {
        decimal(n / 10).push(digit_char((n % 10) as int))
    }
}

/// An integer in decimal, with a minus sign if it is negative.
pub open spec fn signed_decimal(n: int) -> Seq<char> {
    if n < 0 {
        seq!['-'] + decimal((-n) as nat)
    } else {
        decimal(n as nat)
    }
}

/// The title of a month's view: the month in two digits, a slash, the year.
pub open spec fn title_text(selected: Ymd) -> Seq<char> {
    seq![digit_char(selected.month / 10), digit_char(selected.month % 10), '/'] + signed_decimal(
        selected.year,
    )
}

/// Lines that each week's row takes in a viewport of this height.
pub fn row_height(viewport_height: u16) -> (rows: u16)
    ensures
        rows == row_height_for(viewport_height as int),
        rows >= 1,
{
    let share: u16 = viewport_height.saturating_sub(RESERVED_ROWS) / MAX_WEEKS;
    if share > 1 {
        share
    } else {
        1
    }
}

/// Cells left empty between two columns in a viewport of this width.
pub fn column_spacing(viewport_width: u16) -> (gap: u16)
    ensures
        gap == column_spacing_for(viewport_width as int),
{
    if viewport_width < SPACED_BELOW_WIDTH {
        1
    } else {
        0
    }
}

/// The name of a weekday, in full or cut to three letters.
pub fn weekday_label(day: Weekday, full: bool) -> (label: &'static str)
    ensures
        label@ == weekday_name(day.index(), full),
{
    if full {
        match day {
            Weekday::Mon => "Monday",
            Weekday::Tue => "Tuesday",
            Weekday::Wed => "Wednesday",
            Weekday::Thu => "Thursday",
            Weekday::Fri => "Friday",
            Weekday::Sat => "Saturday",
            Weekday::Sun => "Sunday",
        }
    } else {
        match day {
            Weekday::Mon => "Mon",
            Weekday::Tue => "Tue",
            Weekday::Wed => "Wed",
            Weekday::Thu => "Thu",
            Weekday::Fri => "Fri",
            Weekday::Sat => "Sat",
            Weekday::Sun => "Sun",
        }
    }
}

/// The seven weekday labels, Monday first: full names in a viewport at
/// least 80 cells wide, three-letter names in a narrower one.
pub fn header(viewport_width: u16) -> (labels: Vec<&'static str>)
    ensures
        labels@.len() == 7,
        forall|i: int|
            0 <= i < 7 ==> (#[trigger] labels@[i])@ == weekday_name(
                i,
                full_names_for(viewport_width as int),
            ),
{
    let full = viewport_width >= FULL_NAMES_WIDTH;
    let mut labels: Vec<&'static str> = Vec::new();
    labels.push(weekday_label(Weekday::Mon, full));
    labels.push(weekday_label(Weekday::Tue, full));
    labels.push(weekday_label(Weekday::Wed, full));
    labels.push(weekday_label(Weekday::Thu, full));
    labels.push(weekday_label(Weekday::Fri, full));
    labels.push(weekday_label(Weekday::Sat, full));
    labels.push(weekday_label(Weekday::Sun, full));
    labels
}

// One decimal digit as text.
fn digit_text(digit: u32) -> (text: &'static str)
    requires
        digit < 10,
    ensures
        text@ == seq![digit_char(digit as int)],
{
    proof {
        reveal_strlit("0");
        reveal_strlit("1");
        reveal_strlit("2");
        reveal_strlit("3");
        reveal_strlit("4");
        reveal_strlit("5");
        reveal_strlit("6");
        reveal_strlit("7");
        reveal_strlit("8");
        reveal_strlit("9");
    }
    let text = match digit {
        0 => "0",
        1 => "1",
        2 => "2",
        3 => "3",
        4 => "4",
        5 => "5",
        6 => "6",
        7 => "7",
        8 => "8",
        _ => "9",
    };
    assert(text@ =~= seq![digit_char(digit as int)]);
    text
}

// Writes `n` in decimal at the end of `text`.
fn append_decimal(text: &mut String, n: u32)
    ensures
        final(text)@ == old(text)@ + decimal(n as nat),
    decreases n,
{
    if n >= 10 {
        append_decimal(text, n / 10);
    }
    text.append(digit_text(n % 10));
    assert(text@ =~= old(text)@ + decimal(n as nat));
}

/// The title of the frame: `MM/YYYY` for the month of `selected`.
pub fn title(selected: &Date) -> (text: String)
    ensures
        text@ == title_text(selected@),
{
    let month = selected.month();
    let year = selected.year();
    let mut text = String::new();
    text.append(digit_text(month / 10));
    text.append(digit_text(month % 10));
    proof {
        reveal_strlit("/");
        reveal_strlit("-");
    }
    text.append("/");
    if year < 0 {
        text.append("-");
        append_decimal(&mut text, (-year) as u32);
    } else {
        append_decimal(&mut text, year as u32);
    }
    assert(text@ =~= title_text(selected@));
    text
}

} // verus!
