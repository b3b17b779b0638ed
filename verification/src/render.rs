//! The month view: which weeks a month is shown with, and the styled cell
//! of every day in them.

use crate::calendar::{
    day_in_range, lemma_day_number_ordered, lemma_month_span, lemma_range_holds,
    lemma_room_after_month, Ymd,
};
use crate::date::{naive_add_days, naive_weekday, Date, DateArithmeticError, Week};
use crate::layout::{
    column_spacing, column_spacing_for, full_names_for, header, row_height, row_height_for, title,
    title_text, weekday_name,
};
use crate::style::{cell_style, BaseStyle, CellStyle, Highlight};
use vstd::prelude::*;

verus! {

/// One day of the grid.
#[derive(Clone, Copy, Debug, PartialEq, Eq)]
pub struct Cell {
    pub date: Date,
    pub style: CellStyle,
}

/// One row of the grid: the seven days of a week.
#[derive(Clone, Debug, PartialEq, Eq)]
pub struct Row {
    pub cells: Vec<Cell>,
}

/// Everything the display needs to draw a month.
#[derive(Clone, Debug, PartialEq, Eq)]
pub struct MonthView {
    /// Title of the surrounding frame.
    pub title: String,
    /// The seven column headings, Monday first.
    pub header: Vec<&'static str>,
    /// The weeks of the grid, earliest first.
    pub rows: Vec<Row>,
    /// Lines each week's row takes.
    pub row_height: u16,
    /// Cells left empty between two columns.
    pub column_spacing: u16,
}

/// Day number of the Monday that the view of `selected`'s month begins with:
/// the Monday on or before the first of the month.
pub open spec fn window_start(selected: Ymd) -> int {
    let first = selected.first_of_month();
    first.day_number() - first.weekday_index()
}

/// Number of weeks in the view: every week from the first that begins on or
/// before the last day of the month.
pub open spec fn week_count(selected: Ymd) -> int {
    (selected.last_of_month().day_number() - window_start(selected)) / 7 + 1
}

/// Day number of the Sunday that the view ends with.
pub open spec fn window_end(selected: Ymd) -> int {
    window_start(selected) + 7 * week_count(selected) - 1
}

/// Whether every day of the view is a representable date.
pub open spec fn window_in_range(selected: Ymd) -> bool {
    day_in_range(window_start(selected)) && day_in_range(window_end(selected))
}

impl Cell {
    /// The cell is the day with this day number, styled for this view.
    pub open spec fn shows(self, day_number: int, selected: Ymd, today: Ymd) -> bool {
        &&& self.date@.valid()
        &&& self.date@.day_number() == day_number
        &&& self.style == cell_style(self.date@, selected, today)
    }

    /// The number the cell is labelled with: the day of the month.
    pub fn label(&self) -> (day: u32)
        ensures
            day == self.date@.day,
    {
        self.date.day()
    }
}

impl Row {
    /// The row holds the seven days from `first_day` on, each styled for
    /// this view.
    pub open spec fn shows(self, first_day: int, selected: Ymd, today: Ymd) -> bool {
        &&& self.cells@.len() == 7
        &&& forall|i: int|
            0 <= i < 7 ==> (#[trigger] self.cells@[i]).shows(first_day + i, selected, today)
    }
}

impl MonthView {
    /// The cell in this row and column, both counted from 0.
    pub open spec fn cell(self, row: int, column: int) -> Cell {
        self.rows@[row].cells@[column]
    }

    /// Whether the view has a cell at this row and column.
    pub open spec fn has_cell(self, row: int, column: int) -> bool {
        0 <= row < self.rows@.len() && 0 <= column < 7
    }

    /// The view is the one of `selected`'s month on the day `today`, laid
    /// out for a viewport of this size.
    pub open spec fn shows(self, selected: Ymd, today: Ymd, width: int, height: int) -> bool {
        &&& self.title@ == title_text(selected)
        &&& self.header@.len() == 7
        &&& forall|i: int|
            0 <= i < 7 ==> (#[trigger] self.header@[i])@ == weekday_name(i, full_names_for(width))
        &&& self.row_height == row_height_for(height)
        &&& self.column_spacing == column_spacing_for(width)
        &&& self.rows@.len() == week_count(selected)
        &&& forall|k: int|
            0 <= k < self.rows@.len() ==> (#[trigger] self.rows@[k]).shows(
                window_start(selected) + 7 * k,
                selected,
                today,
            )
    }
}

/// The cell of `day` in a view of the month of `selected`, on the day `today`.
pub fn create_cell(day: Date, selected: Date, today: Date) -> (cell: Cell)
    ensures
        cell.date == day,
        cell.style == cell_style(day@, selected@, today@),
        cell.shows(day@.day_number(), selected@, today@),
{
    proof {
        use_type_invariant(&day);
        Date::lemma_view_determines(day, today);
        Date::lemma_view_determines(day, selected);
    }
    let in_month = day.same_month(&selected);
    let weekend = naive_weekday(day).is_weekend();
    let base = BaseStyle::of(in_month, weekend);
    let highlight = Highlight::of(day == today, day == selected);
    Cell { date: day, style: CellStyle { base, highlight } }
}

/// The row of the seven days of `week`.
pub fn create_row(week: &Week, selected: Date, today: Date) -> (row: Row)
    ensures
        row.shows(week.start().day_number(), selected@, today@),
{
    let mut cells: Vec<Cell> = Vec::new();
    let mut i: u64 = 0;
    while i < 7
        invariant
            i <= 7,
            cells@.len() == i,
            forall|j: int|
                0 <= j < i ==> (#[trigger] cells@[j]).shows(
                    week.start().day_number() + j,
                    selected@,
                    today@,
                ),
        decreases 7 - i,
    {
        let day = week.day(i).unwrap();
        cells.push(create_cell(day, selected, today));
        i += 1;
    }
    Row { cells }
}

/// Renders the month of `selected` for a viewport of the given size, with
/// `today` as the current date.
///
/// The weeks run from the one that holds the first of the month to the one
/// that holds its last day, each from Monday to Sunday, so days of the
/// neighbouring months fill the first and the last row. Rendering fails
/// only where one of those days is not a representable date.
pub fn render_view(selected: Date, today: Date, viewport_width: u16, viewport_height: u16) -> (r:
    Result<MonthView, DateArithmeticError>)
    ensures
        r.is_ok() <==> window_in_range(selected@),
        r matches Ok(view) ==> view.shows(
            selected@,
            today@,
            viewport_width as int,
            viewport_height as int,
        ),
        r matches Err(e) ==> e == if day_in_range(window_start(selected@)) {
            DateArithmeticError::AfterLastDate
        } else {
            DateArithmeticError::BeforeFirstDate
        },
{
    proof {
        use_type_invariant(&selected);
    }
    let first = selected.first_of_month();
    let last = selected.last_of_month();
    let ghost start = window_start(selected@);
    let ghost month_end = last@.day_number();
    proof {
        lemma_month_span(selected@, selected@);
        lemma_range_holds(first@);
        lemma_range_holds(last@);
    }
    let mut rows: Vec<Row> = Vec::new();
    let mut current = first;
    loop
        invariant_except_break
            current@.valid(),
            current@.day_number() == first@.day_number() + 7 * rows@.len(),
            current@.weekday_index() == first@.weekday_index(),
        invariant
            selected@.valid(),
            first@ == selected@.first_of_month(),
            last@ == selected@.last_of_month(),
            last@.valid(),
            start == window_start(selected@),
            month_end == last@.day_number(),
            first@.day_number() + 27 <= month_end,
            day_in_range(month_end),
            rows@.len() > 0 ==> day_in_range(start),
            rows@.len() > 0 ==> start + 7 * (rows@.len() - 1) <= month_end,
            rows@.len() > 0 ==> day_in_range(start + 7 * rows@.len() - 1),
            forall|k: int|
                0 <= k < rows@.len() ==> (#[trigger] rows@[k]).shows(
                    start + 7 * k,
                    selected@,
                    today@,
                ),
        ensures
            rows@.len() > 0,
            start + 7 * rows@.len() > month_end,
        decreases month_end - start - 7 * rows@.len() + 7,
    {
        proof {
            lemma_range_holds(current@);
            lemma_room_after_month(selected@);
            assert(current@.day_number() - current@.weekday_index() == start + 7 * rows@.len());
        }
        let week = match Week::containing(current) {
            Ok(week) => week,
            Err(e) => {
                return Err(e);
            },
        };
        let first_day = week.first_day();
        let last_day = week.last_day();
        proof {
            lemma_month_span(first_day@, selected@);
            lemma_month_span(last_day@, selected@);
        }
        if !(first_day.same_month(&selected) || last_day.same_month(&selected)) {
            break ;
        }
        rows.push(create_row(&week, selected, today));
        match naive_add_days(current, 7) {
            Some(next) => {
                current = next;
            },
            None => {
                if last_day.precedes(&last) {
                    return Err(DateArithmeticError::AfterLastDate);
                }
                break ;
            },
        }
    }
    Ok(
        MonthView {
            title: title(&selected),
            header: header(viewport_width),
            rows,
            row_height: row_height(viewport_height),
            column_spacing: column_spacing(viewport_width),
        },
    )
}

/// The row a day of the view stands in.
pub open spec fn week_of(selected: Ymd, day: Ymd) -> int {
    (day.day_number() - window_start(selected)) / 7
}

/// The column a day of the view stands in.
pub open spec fn column_of(selected: Ymd, day: Ymd) -> int {
    (day.day_number() - window_start(selected)) % 7
}

/// Whether `day` is one of the days that the view of `selected`'s month shows.
pub open spec fn in_window(selected: Ymd, day: Ymd) -> bool {
    window_start(selected) <= day.day_number() <= window_end(selected)
}

/// The view of a month begins on or before its first day and ends on or
/// after its last, at most six days away from either, and is at most six
/// weeks long.
pub proof fn lemma_window_spans_month(selected: Ymd)
    requires
        selected.valid(),
    ensures
        selected.first_of_month().day_number() - 6 <= window_start(selected)
            <= selected.first_of_month().day_number(),
        selected.last_of_month().day_number() <= window_end(selected)
            <= selected.last_of_month().day_number() + 6,
        4 <= week_count(selected) <= 6,
        (window_start(selected) - 1) % 7 == 0,
{
    lemma_month_span(selected, selected);
}

/// A week belongs to the view exactly when its Monday or its Sunday lies in
/// the selected month; `week` counts the weeks from the one that holds the
/// first of the month, which is week 0.
pub proof fn lemma_weeks_touch_month(selected: Ymd, week: int)
    requires
        selected.valid(),
        0 <= week,
    ensures
        week < week_count(selected) <==> {
            let monday = window_start(selected) + 7 * week;
            let sunday = monday + 6;
            let first = selected.first_of_month().day_number();
            let last = selected.last_of_month().day_number();
            first <= monday <= last || first <= sunday <= last
        },
{
    lemma_window_spans_month(selected);
    lemma_month_span(selected, selected);
}

/// The view consists of whole weeks that follow one another, each from
/// Monday to Sunday, and every day of the selected month has its cell.
pub proof fn lemma_weeks_cover_month(
    view: MonthView,
    selected: Ymd,
    today: Ymd,
    width: int,
    height: int,
)
    requires
        selected.valid(),
        view.shows(selected, today, width, height),
    ensures
        forall|k: int| 0 <= k < view.rows@.len() ==> (#[trigger] view.rows@[k]).cells@.len() == 7,
        forall|k: int, i: int|
            view.has_cell(k, i) ==> {
                let date = (#[trigger] view.cell(k, i)).date@;
                &&& date.valid()
                &&& date.weekday_index() == i
                &&& date.day_number() == window_start(selected) + 7 * k + i
            },
        forall|day: Ymd|
            day.valid() && #[trigger] day.same_month(selected) ==> {
                &&& view.has_cell(week_of(selected, day), column_of(selected, day))
                &&& view.cell(week_of(selected, day), column_of(selected, day)).date@ == day
            },
{
    lemma_window_spans_month(selected);
    assert forall|k: int, i: int| view.has_cell(k, i) implies {
        let date = (#[trigger] view.cell(k, i)).date@;
        &&& date.valid()
        &&& date.weekday_index() == i
        &&& date.day_number() == window_start(selected) + 7 * k + i
    } by {
        assert(view.rows@[k].shows(window_start(selected) + 7 * k, selected, today));
        assert(view.rows@[k].cells@[i].shows(window_start(selected) + 7 * k + i, selected, today));
    }
    assert forall|day: Ymd| day.valid() && #[trigger] day.same_month(selected) implies {
        &&& view.has_cell(week_of(selected, day), column_of(selected, day))
        &&& view.cell(week_of(selected, day), column_of(selected, day)).date@ == day
    } by {
        lemma_month_span(day, selected);
        lemma_cell_of_day(view, selected, today, width, height, day);
    }
}

/// A day within the view stands in the cell that its distance from the
/// view's first Monday gives, and in no other.
pub proof fn lemma_cell_of_day(
    view: MonthView,
    selected: Ymd,
    today: Ymd,
    width: int,
    height: int,
    day: Ymd,
)
    requires
        selected.valid(),
        day.valid(),
        view.shows(selected, today, width, height),
    ensures
        in_window(selected, day) ==> {
            &&& view.has_cell(week_of(selected, day), column_of(selected, day))
            &&& view.cell(week_of(selected, day), column_of(selected, day)).date@ == day
        },
        forall|k: int, i: int|
            view.has_cell(k, i) && (#[trigger] view.cell(k, i)).date@ == day ==> in_window(
                selected,
                day,
            ) && k == week_of(selected, day) && i == column_of(selected, day),
{
    let start = window_start(selected);
    assert forall|k: int, i: int|
        view.has_cell(k, i) && (#[trigger] view.cell(k, i)).date@ == day implies in_window(
        selected,
        day,
    ) && k == week_of(selected, day) && i == column_of(selected, day) by {
        assert(view.rows@[k].shows(start + 7 * k, selected, today));
        assert(view.rows@[k].cells@[i].shows(start + 7 * k + i, selected, today));
    }
    if in_window(selected, day) {
        let k = week_of(selected, day);
        let i = column_of(selected, day);
        assert(view.has_cell(k, i));
        assert(view.rows@[k].shows(start + 7 * k, selected, today));
        assert(view.rows@[k].cells@[i].shows(start + 7 * k + i, selected, today));
        lemma_day_number_ordered(view.cell(k, i).date@, day);
    }
}

/// Exactly one cell of the view is marked as selected, the one of the
/// selected date; and if today is among the days of the view, exactly one
/// cell is marked as today, else none.
pub proof fn lemma_one_cell_marked(
    view: MonthView,
    selected: Ymd,
    today: Ymd,
    width: int,
    height: int,
)
    requires
        selected.valid(),
        today.valid(),
        view.shows(selected, today, width, height),
    ensures
        view.has_cell(week_of(selected, selected), column_of(selected, selected)),
        forall|k: int, i: int|
            view.has_cell(k, i) ==> ((#[trigger] view.cell(k, i)).style.highlight.marks_selected()
                <==> k == week_of(selected, selected) && i == column_of(selected, selected)),
        in_window(selected, today) ==> view.has_cell(
            week_of(selected, today),
            column_of(selected, today),
        ),
        forall|k: int, i: int|
            view.has_cell(k, i) ==> ((#[trigger] view.cell(k, i)).style.highlight.marks_today()
                <==> in_window(selected, today) && k == week_of(selected, today) && i == column_of(
                selected,
                today,
            )),
{
    lemma_window_spans_month(selected);
    lemma_month_span(selected, selected);
    lemma_cell_of_day(view, selected, today, width, height, selected);
    lemma_cell_of_day(view, selected, today, width, height, today);
    assert forall|k: int, i: int| view.has_cell(k, i) implies ((#[trigger] view.cell(
        k,
        i,
    )).style.highlight.marks_selected() <==> k == week_of(selected, selected) && i == column_of(
        selected,
        selected,
    )) && (view.cell(k, i).style.highlight.marks_today() <==> in_window(selected, today) && k
        == week_of(selected, today) && i == column_of(selected, today)) by {
        let start = window_start(selected);
        assert(view.rows@[k].shows(start + 7 * k, selected, today));
        assert(view.rows@[k].cells@[i].shows(start + 7 * k + i, selected, today));
    }
}

} // verus!
