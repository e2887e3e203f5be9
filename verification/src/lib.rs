//! Decision logic of a file watcher that runs a command whenever one of a
//! fixed set of files is written.
//!
//! The crate holds the rules only: how a command string is split into a
//! program and its arguments, how the outcome of a run is judged, which
//! paths are watched, and how the steady-state loop reacts to each event.
//! Blocking on the file system and starting processes is left to the caller.

pub mod command;
pub mod watch;
pub mod dispatch;
pub mod report;
