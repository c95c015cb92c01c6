//! A daily to-do list: the task list of one calendar day, the rules that
//! start, reset and carry over a day, and the key handling of the list screen
//! and of the carry-over screen.

pub mod text;
pub mod clock;
pub mod state;
pub mod ui;
pub mod rollover;
pub mod cli;
pub mod laws;
