//! Input events, the commands they stand for, and what the event loop is to
//! do after each command.

use vstd::prelude::*;

verus! {

/// A key on the keyboard, as far as the calendar tells keys apart.
#[derive(Clone, Copy, Debug, PartialEq, Eq, Structural)]
pub enum KeyCode {
    Char(char),
    Left,
    Right,
    Up,
    Down,
    Other,
}

/// What the input stream delivered within one wait.
#[derive(Clone, Copy, Debug, PartialEq, Eq, Structural)]
pub enum InputEvent {
    /// A key event; `pressed` is false for a release or a repeat, `control`
    /// says whether the control modifier was held.
    Key { code: KeyCode, control: bool, pressed: bool },
    /// The terminal changed its size.
    Resize,
    /// Any other event.
    Other,
    /// The wait ended without an event.
    Timeout,
}

/// What the user, or the passing of time, asks of the calendar.
#[derive(Clone, Copy, Debug, PartialEq, Eq, Structural)]
pub enum Command {
    Quit,
    MoveDayForward,
    MoveDayBackward,
    MoveWeekForward,
    MoveWeekBackward,
    ViewportChanged,
    Idle,
    Ignored,
}

/// What the event loop does next.
#[derive(Clone, Copy, Debug, PartialEq, Eq, Structural)]
pub enum ControlFlow {
    Continue,
    Render,
    Quit,
}

/// Seconds to wait for input before the view is drawn again, so that the
/// highlight of today follows the clock.
pub const IDLE_TIMEOUT_SECS: u64 = 60;

impl InputEvent {
    /// The command an event stands for: `q` or control-`c` quits, the
    /// horizontal arrows step a day, the vertical arrows step a week.
    pub open spec fn command(self) -> Command {
        match self {
            InputEvent::Key { code, control, pressed } => if !pressed {
                Command::Ignored
            } else {
                match code {
                    KeyCode::Char(c) => if c == 'q' || (c == 'c' && control) {
                        Command::Quit
                    } else {
                        Command::Ignored
                    },
                    KeyCode::Right => Command::MoveDayForward,
                    KeyCode::Left => Command::MoveDayBackward,
                    KeyCode::Up => Command::MoveWeekBackward,
                    KeyCode::Down => Command::MoveWeekForward,
                    KeyCode::Other => Command::Ignored,
                }
            },
            InputEvent::Resize => Command::ViewportChanged,
            InputEvent::Other => Command::Ignored,
            InputEvent::Timeout => Command::Idle,
        }
    }

    /// The command this event stands for.
    pub fn to_command(&self) -> (c: Command)
        ensures
            c == self.command(),
    {
        match *self {
            InputEvent::Key { code, control, pressed } => {
                if !pressed {
                    return Command::Ignored;
                }
                match code {
                    KeyCode::Char('q') => Command::Quit,
                    KeyCode::Char('c') => if control {
                        Command::Quit
                    } else {
                        Command::Ignored
                    },
                    KeyCode::Right => Command::MoveDayForward,
                    KeyCode::Left => Command::MoveDayBackward,
                    KeyCode::Up => Command::MoveWeekBackward,
                    KeyCode::Down => Command::MoveWeekForward,
                    _ => Command::Ignored,
                }
            },
            InputEvent::Resize => Command::ViewportChanged,
            InputEvent::Other => Command::Ignored,
            InputEvent::Timeout => Command::Idle,
        }
    }
}

impl Command {
    /// Days by which the command shifts the selected date.
    pub open spec fn day_offset(self) -> int {
        match self {
            Command::MoveDayForward => 1,
            Command::MoveDayBackward => -1,
            Command::MoveWeekForward => 7,
            Command::MoveWeekBackward => -7,
            _ => 0,
        }
    }

    /// What the loop does once the command has been carried out.
    pub open spec fn flow(self) -> ControlFlow {
        match self {
            Command::Quit => ControlFlow::Quit,
            Command::Ignored => ControlFlow::Continue,
            _ => ControlFlow::Render,
        }
    }

    /// The command that undoes this one's shift of the selected date.
    pub open spec fn opposite(self) -> Command {
        match self {
            Command::MoveDayForward => Command::MoveDayBackward,
            Command::MoveDayBackward => Command::MoveDayForward,
            Command::MoveWeekForward => Command::MoveWeekBackward,
            Command::MoveWeekBackward => Command::MoveWeekForward,
            other => other,
        }
    }

    /// What the loop does once the command has been carried out.
    pub fn control_flow(&self) -> (f: ControlFlow)
        ensures
            f == self.flow(),
    {
        match self {
            Command::Quit => ControlFlow::Quit,
            Command::Ignored => ControlFlow::Continue,
            _ => ControlFlow::Render,
        }
    }
}

} // verus!
