//! Error taxonomy of the connector core.
//!
//! Configuration errors are fatal at construction; connection, query and
//! schedule-computation errors are fatal to a running instance; a
//! normalization error concerns one column only and is degraded to a null
//! entry by the row mapper.

use vstd::prelude::*;

verus! {

/// Why one column value could not be normalized.
#[derive(Clone, Copy, PartialEq, Eq, Structural, Debug)]
pub enum NormalizeErrorKind {
    /// An unsigned value exceeds the signed 64-bit range.
    RangeOverflow,
    /// A floating-point value is NaN.
    NanValue,
    /// The date components do not form a real calendar date or time.
    InvalidDate,
}

/// A normalization failure, naming the column it occurred on.
#[derive(Debug)]
pub struct NormalizeError {
    pub column: String,
    pub kind: NormalizeErrorKind,
}

/// A fatal configuration fault found at construction.
#[derive(Clone, Copy, PartialEq, Eq, Structural, Debug)]
pub enum ConfigError {
    /// The cron expression does not follow the five-field grammar.
    MalformedSchedule,
}

/// A fault that terminates a running connector instance.
#[derive(Clone, Copy, PartialEq, Eq, Structural, Debug)]
pub enum RunError {
    /// The connection could not be acquired within the timeout, or failed.
    Connection,
    /// The statement could not be prepared or executed.
    Query,
    /// No next fire time could be computed.
    Schedule,
}

} // verus!
