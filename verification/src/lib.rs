//! A supervisor that runs a command under a wall-clock deadline and, once the
//! deadline has passed, asks whether to close or resume it.
//!
//! The crate holds the decisions: what to do to the terminal and the job, in
//! which order, and what to say. The embedding program performs the system
//! calls it is asked for and reports back what they returned.

pub mod job;
pub mod prompt;
pub mod signal;
pub mod terminal;
pub mod text;
pub mod timeout;
pub mod trace;
pub mod ui;
