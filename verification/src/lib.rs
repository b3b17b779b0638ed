//! Core of a terminal month calendar: the selected-date state machine and the
//! month-grid renderer, with their contracts stated over a day-count model of
//! the proleptic Gregorian calendar.

pub mod app;
pub mod calendar;
pub mod command;
pub mod date;
pub mod layout;
pub mod render;
pub mod style;
