//! A two-level time tracker: top-level timers that may hold sub-timers,
//! the selection and editing state of the terminal front end, and the
//! rendering of durations as text.

pub mod cli;
pub mod app;
pub mod clock;
pub mod duration;
pub mod text;
pub mod timer;
