//! Countdown timer engine: a parser for compact duration strings such as
//! `1h30m15s`, and the state machine of the render loop that drives a
//! rate-limited terminal progress bar until the deadline or a cancellation
//! signal.

pub mod digits;
pub mod display;
pub mod parse;
pub mod render;
pub mod terminal;
