//! Interval logs of measurements, written off-thread.
//!
//! A [`HistLog`] records values in a histogram. In each turn of an event loop it is given the time,
//! and whenever more than an interval has gone by it hands its histogram over a channel to a writer
//! and goes on with a new one. The writer is a [`Scribe`]: it says, message by message, what to
//! append to the log file. Starting a thread for it and writing the file are left to the user of
//! the library, who passes a function that does so when opening a log.
//!
//! When a log goes it is closed, step by step: what it holds is sent, and the last log that shares
//! a writer tells it to end.
//!
//! [`laws`] states what holds of the library as a whole, [`system`] what holds of several logs that
//! share a writer, and [`meaning`] what each operation means in terms of its inputs and results.

use vstd::prelude::*;

pub mod channel;
pub mod error;
pub mod filename;
pub mod hist;
pub mod laws;
pub mod log;
pub mod meaning;
pub mod path;
pub mod scribe;
pub mod system;
pub mod time;

pub use crate::error::Error;
pub use crate::log::HistLog;
pub use crate::scribe::Scribe;
pub use crate::time::nanos;

verus! {

/// Type of value recorded to the histogram.
pub type C = u64;

/// The name of a series of measurements.
pub type SeriesName = &'static str;

/// What the entries of one log are marked with.
pub type Tag = &'static str;

/// Significant figures of the histogram of a log unless others are asked for.
pub const DEFAULT_SIG_FIG: u8 = 3;

/// Capacity of the channel between the measuring thread and the writer thread.
pub const CHANNEL_SIZE: usize = 8;

/// How many milliseconds a log that goes tries to send what it holds and to tell its writer to end,
/// while the channel to it is full.
pub const DROP_DEADLINE_MILLIS: u64 = 5;

} // verus!
