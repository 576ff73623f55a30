//! A verified core for a scheduled database-polling connector.
//!
//! The library converts native database values into a generic value model,
//! maps rows into keyed records, computes recurring fire times from a
//! five-field cron expression, and drives the poll lifecycle as a state
//! machine.  The surrounding process (timers, signals, the database driver,
//! the pipeline sink) lives outside the library and talks to it through
//! plain values.

pub mod calendar;
pub mod clock;
pub mod config;
pub mod cron;
pub mod engine;
pub mod errors;
pub mod floatbits;
pub mod record;
pub mod ruby;
pub mod value;
