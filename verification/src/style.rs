//! How a day of the grid is to look: a base style by month and weekend, and
//! a highlight for today and for the selected day on top of it.

use crate::calendar::Ymd;
use vstd::prelude::*;

verus! {

/// The look a day has from its place in the calendar alone.
#[derive(Clone, Copy, Debug, PartialEq, Eq, Structural)]
pub enum BaseStyle {
    /// A Saturday or Sunday of the displayed month.
    MonthWeekend,
    /// A working day of the displayed month.
    MonthWeekday,
    /// A Saturday or Sunday of a neighbouring month.
    OtherWeekend,
    /// A working day of a neighbouring month.
    OtherWeekday,
}

/// What is laid over the base style.
#[derive(Clone, Copy, Debug, PartialEq, Eq, Structural)]
pub enum Highlight {
    /// The day is today and is selected.
    TodaySelected,
    /// The day is today and is not selected.
    Today,
    /// The day is selected and is not today.
    Selected,
    /// Neither: the base style shows unchanged.
    Plain,
}

/// The full style of one cell.
#[derive(Clone, Copy, Debug, PartialEq, Eq, Structural)]
pub struct CellStyle {
    pub base: BaseStyle,
    pub highlight: Highlight,
}

/// The colours the calendar uses.
#[derive(Clone, Copy, Debug, PartialEq, Eq, Structural)]
pub enum Color {
    Black,
    Green,
    LightBlue,
    LightRed,
    LightYellow,
}

/// A style spelled out as terminal attributes. A missing colour means the
/// terminal's default.
#[derive(Clone, Copy, Debug, PartialEq, Eq, Structural)]
pub struct TextStyle {
    pub foreground: Option<Color>,
    pub background: Option<Color>,
    pub bold: bool,
    pub dim: bool,
    pub italic: bool,
    pub reversed: bool,
}

/// The base style of a day, by whether it lies in the displayed month and
/// whether it is a Saturday or Sunday.
pub open spec fn base_style(in_month: bool, weekend: bool) -> BaseStyle {
    if in_month {
        if weekend {
            BaseStyle::MonthWeekend
        } else {
            BaseStyle::MonthWeekday
        }
    } else {
        if weekend {
            BaseStyle::OtherWeekend
        } else {
            BaseStyle::OtherWeekday
        }
    }
}

/// The highlight of a day, by whether it is today and whether it is the
/// selected day.
pub open spec fn highlight(is_today: bool, is_selected: bool) -> Highlight {
    if is_today {
        if is_selected {
            Highlight::TodaySelected
        } else {
            Highlight::Today
        }
    } else {
        if is_selected {
            Highlight::Selected
        } else {
            Highlight::Plain
        }
    }
}

/// The style of `day` in a view of the month of `selected`, on the day `today`.
pub open spec fn cell_style(day: Ymd, selected: Ymd, today: Ymd) -> CellStyle {
    CellStyle {
        base: base_style(day.same_month(selected), day.is_weekend()),
        highlight: highlight(day == today, day == selected),
    }
}

impl BaseStyle {
    /// The base style of a day in or out of the displayed month, on or off
    /// a weekend.
    pub fn of(in_month: bool, weekend: bool) -> (style: BaseStyle)
        ensures
            style == base_style(in_month, weekend),
    {
        match (in_month, weekend) {
            (true, true) => BaseStyle::MonthWeekend,
            (true, false) => BaseStyle::MonthWeekday,
            (false, true) => BaseStyle::OtherWeekend,
            (false, false) => BaseStyle::OtherWeekday,
        }
    }

    /// Weekends are red, bold inside the month and dim outside it; working
    /// days of the month are yellow; days outside the month are italic.
    pub open spec fn text(self) -> TextStyle {
        match self {
            BaseStyle::MonthWeekend => TextStyle {
                foreground: Some(Color::LightRed),
                background: None,
                bold: true,
                dim: false,
                italic: false,
                reversed: false,
            },
            BaseStyle::MonthWeekday => TextStyle {
                foreground: Some(Color::LightYellow),
                background: None,
                bold: false,
                dim: false,
                italic: false,
                reversed: false,
            },
            BaseStyle::OtherWeekend => TextStyle {
                foreground: Some(Color::LightRed),
                background: None,
                bold: false,
                dim: true,
                italic: true,
                reversed: false,
            },
            BaseStyle::OtherWeekday => TextStyle {
                foreground: None,
                background: None,
                bold: false,
                dim: false,
                italic: true,
                reversed: false,
            },
        }
    }

    /// The attributes of the base style alone.
    pub fn text_style(&self) -> (text: TextStyle)
        ensures
            text == self.text(),
    {
        let plain = TextStyle {
            foreground: None,
            background: None,
            bold: false,
            dim: false,
            italic: false,
            reversed: false,
        };
        match self {
            BaseStyle::MonthWeekend => TextStyle {
                foreground: Some(Color::LightRed),
                bold: true,
                ..plain
            },
            BaseStyle::MonthWeekday => TextStyle { foreground: Some(Color::LightYellow), ..plain },
            BaseStyle::OtherWeekend => TextStyle {
                foreground: Some(Color::LightRed),
                dim: true,
                italic: true,
                ..plain
            },
            BaseStyle::OtherWeekday => TextStyle { italic: true, ..plain },
        }
    }
}

impl Highlight {
    /// The highlight of a day that is or is not today, and is or is not
    /// selected.
    pub fn of(is_today: bool, is_selected: bool) -> (mark: Highlight)
        ensures
            mark == highlight(is_today, is_selected),
    {
        match (is_today, is_selected) {
            (true, true) => Highlight::TodaySelected,
            (true, false) => Highlight::Today,
            (false, true) => Highlight::Selected,
            (false, false) => Highlight::Plain,
        }
    }

    /// Whether the highlight says that the day is today.
    pub open spec fn marks_today(self) -> bool {
        self == Highlight::TodaySelected || self == Highlight::Today
    }

    /// Whether the highlight says that the day is selected.
    pub open spec fn marks_selected(self) -> bool {
        self == Highlight::TodaySelected || self == Highlight::Selected
    }

    /// Today is black on green when selected and black on blue otherwise; a
    /// selected day that is not today is shown in reverse video. All three
    /// are bold, and whatever they do not set stays as `under` has it.
    pub open spec fn over(self, under: TextStyle) -> TextStyle {
        match self {
            Highlight::TodaySelected => TextStyle {
                foreground: Some(Color::Black),
                background: Some(Color::Green),
                bold: true,
                ..under
            },
            Highlight::Today => TextStyle {
                foreground: Some(Color::Black),
                background: Some(Color::LightBlue),
                bold: true,
                ..under
            },
            Highlight::Selected => TextStyle { bold: true, reversed: true, ..under },
            Highlight::Plain => under,
        }
    }

    /// The attributes of `under` with this highlight laid over them.
    pub fn apply_over(&self, under: TextStyle) -> (text: TextStyle)
        ensures
            text == self.over(under),
    {
        match self {
            Highlight::TodaySelected => TextStyle {
                foreground: Some(Color::Black),
                background: Some(Color::Green),
                bold: true,
                ..under
            },
            Highlight::Today => TextStyle {
                foreground: Some(Color::Black),
                background: Some(Color::LightBlue),
                bold: true,
                ..under
            },
            Highlight::Selected => TextStyle { bold: true, reversed: true, ..under },
            Highlight::Plain => under,
        }
    }
}

impl CellStyle {
    /// The attributes to draw with: the base style with the highlight over it.
    pub open spec fn text(self) -> TextStyle {
        self.highlight.over(self.base.text())
    }

    /// The attributes to draw the cell with.
    pub fn text_style(&self) -> (text: TextStyle)
        ensures
            text == self.text(),
    {
        self.highlight.apply_over(self.base.text_style())
    }
}

} // verus!
