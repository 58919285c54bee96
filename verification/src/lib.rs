//! Elapsed-time bookkeeping for a list of independent stopwatches.
//!
//! [`stopwatch::Stopwatch`] is a single timer's state machine: it accumulates
//! wall-clock time across start/pause cycles and answers one query, the total
//! time elapsed so far. [`collection::StopwatchCollection`] owns a set of
//! stopwatches in an insertion-ordered map, assigns identifiers as one more
//! than the greatest present, and supports add, remove, lookup and in-order
//! iteration. All time values are nanosecond counts.

pub mod collection;
pub mod stopwatch;
