//! The navigation state machine: one selected date, moved by commands.

use crate::calendar::{
    day_in_range, lemma_day_number_determines, lemma_range_holds, lemma_shifted_day_number, Ymd,
};
use crate::command::{Command, ControlFlow, InputEvent};
use crate::date::{
    local_today, naive_add_days, naive_pred, naive_sub_days, naive_succ, Date,
    DateArithmeticError,
};
use crate::render::{render_view, window_in_range, window_start, MonthView};
use vstd::prelude::*;

verus! {

/// The calendar's state: the date the user has navigated to.
#[derive(Clone, Copy, Debug, PartialEq, Eq, Structural)]
pub struct App {
    date: Date,
}

impl View for App {
    type V = Ymd;

    closed spec fn view(&self) -> Ymd {
        self.date@
    }
}

/// Whether `command` can be carried out on `selected` without leaving the
/// range of representable dates.
pub open spec fn can_move(selected: Ymd, command: Command) -> bool {
    selected.shifted(command.day_offset()).valid()
}

/// The date that `command` moves the selection to from `selected`.
pub open spec fn moved(selected: Ymd, command: Command) -> Ymd {
    selected.shifted(command.day_offset())
}

impl App {
    /// Holds of every state: the selected date exists and is in range.
    #[verifier::type_invariant]
    pub open spec fn well_formed(self) -> bool {
        self@.valid()
    }

    /// A calendar that starts on today's date, read from the local clock.
    pub fn new() -> (app: App)
        ensures
            app@.valid(),
    {
        App { date: local_today() }
    }

    /// A calendar that starts on `date`.
    pub fn with_date(date: Date) -> (app: App)
        ensures
            app@ == date@,
            app@.valid(),
    {
        proof {
            use_type_invariant(&date);
        }
        App { date }
    }

    /// The selected date.
    pub fn selected(&self) -> (date: Date)
        ensures
            date@ == self@,
            date@.valid(),
    {
        proof {
            use_type_invariant(self);
        }
        self.date
    }

    /// Carries out one command.
    ///
    /// A move shifts the selected date by one day or one week. Where the
    /// shifted date cannot be represented the move fails and the selection
    /// stays as it was. Every other command leaves the selection alone.
    pub fn apply(&mut self, command: Command) -> (r: Result<ControlFlow, DateArithmeticError>)
        ensures
            r.is_ok() <==> can_move(old(self)@, command),
            r.is_ok() ==> final(self)@ == moved(old(self)@, command),
            r.is_err() ==> *final(self) == *old(self),
            command.day_offset() == 0 ==> *final(self) == *old(self),
            r matches Ok(flow) ==> flow == command.flow(),
            r matches Err(e) ==> e == if command.day_offset() < 0 {
                DateArithmeticError::BeforeFirstDate
            } else {
                DateArithmeticError::AfterLastDate
            },
    {
        proof {
            use_type_invariant(&*self);
            lemma_range_holds(self@);
            lemma_shifted_day_number(self@, command.day_offset());
        }
        let target = match command {
            Command::MoveDayForward => naive_succ(self.date),
            Command::MoveDayBackward => naive_pred(self.date),
            Command::MoveWeekForward => naive_add_days(self.date, 7),
            Command::MoveWeekBackward => naive_sub_days(self.date, 7),
            _ => Some(self.date),
        };
        match target {
            Some(date) => {
                proof {
                    lemma_day_number_determines(date@, moved(self@, command));
                }
                self.date = date;
                Ok(command.control_flow())
            },
            None => {
                match command {
                    Command::MoveDayBackward | Command::MoveWeekBackward => Err(
                        DateArithmeticError::BeforeFirstDate,
                    ),
                    _ => Err(DateArithmeticError::AfterLastDate),
                }
            },
        }
    }

    /// Carries out the command that one input event stands for.
    pub fn handle_events(&mut self, event: InputEvent) -> (r: Result<
        ControlFlow,
        DateArithmeticError,
    >)
        ensures
            r.is_ok() <==> can_move(old(self)@, event.command()),
            r.is_ok() ==> final(self)@ == moved(old(self)@, event.command()),
            r.is_err() ==> *final(self) == *old(self),
            event.command().day_offset() == 0 ==> *final(self) == *old(self),
            r matches Ok(flow) ==> flow == event.command().flow(),
            r matches Err(e) ==> e == if event.command().day_offset() < 0 {
                DateArithmeticError::BeforeFirstDate
            } else {
                DateArithmeticError::AfterLastDate
            },
    {
        let command = event.to_command();
        self.apply(command)
    }

    /// Renders the month of the selected date for a viewport of the given
    /// size. Today's date is read from the local clock at every call, so
    /// the view holds for whichever day the clock gave.
    pub fn render(&self, viewport_width: u16, viewport_height: u16) -> (r: Result<
        MonthView,
        DateArithmeticError,
    >)
        ensures
            r.is_ok() <==> window_in_range(self@),
            r matches Ok(view) ==> exists|today: Ymd|
                today.valid() && #[trigger] view.shows(
                    self@,
                    today,
                    viewport_width as int,
                    viewport_height as int,
                ),
            r matches Err(e) ==> e == if day_in_range(window_start(self@)) {
                DateArithmeticError::AfterLastDate
            } else {
                DateArithmeticError::BeforeFirstDate
            },
    {
        let today = local_today();
        render_view(self.date, today, viewport_width, viewport_height)
    }

    /// Two states are the same value exactly when they select the same date.
    pub proof fn lemma_view_determines(a: App, b: App)
        ensures
            (a@ == b@) <==> (a == b),
    {
        Date::lemma_view_determines(a.date, b.date);
    }
}

/// A move that can be carried out leads to the date that many days away:
/// a valid date, whose day number differs from that of the start by the
/// command's offset. It can be carried out exactly when that day is in range.
pub proof fn lemma_move_shifts_day_number(selected: Ymd, command: Command)
    requires
        selected.valid(),
    ensures
        can_move(selected, command) <==> day_in_range(
            selected.day_number() + command.day_offset(),
        ),
        can_move(selected, command) ==> moved(selected, command).valid() && moved(
            selected,
            command,
        ).day_number() == selected.day_number() + command.day_offset(),
{
    lemma_shifted_day_number(selected, command.day_offset());
}

/// A move followed by its opposite leads back: once `command` has moved the
/// selection away from `start`, the opposite command can be carried out,
/// and it moves the selection to `start` again.
pub proof fn lemma_opposite_moves_cancel(start: Ymd, command: Command)
    requires
        start.valid(),
        can_move(start, command),
    ensures
        can_move(moved(start, command), command.opposite()),
        moved(moved(start, command), command.opposite()) == start,
{
    let there = moved(start, command);
    lemma_range_holds(start);
    lemma_move_shifts_day_number(start, command);
    lemma_move_shifts_day_number(there, command.opposite());
    lemma_day_number_determines(moved(there, command.opposite()), start);
}

} // verus!
