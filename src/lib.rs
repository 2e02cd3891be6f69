//! A rotating duty roster: one person per eligible day, edits that switch,
//! drop, collapse or postpone turns, and the once-a-day notification of whoever
//! is on duty, decided by a single owner of the roster.
//!
//! Days are day numbers counted from the common era (0001-01-01 is day 1), as
//! chrono counts them; times of day are seconds since midnight.

pub mod calendar;
pub mod roster;
pub mod gate;
pub mod excerpt;
pub mod scheduler;
pub mod maker;
pub mod records;
pub mod config;
pub mod command;
