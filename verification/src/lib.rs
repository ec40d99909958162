//! An in-memory registry of polls.
//!
//! Every poll has a numeric identifier and one of five statuses. The
//! registry hands out identifiers in the order polls arrive, lets a
//! caller read or replace the status of a known poll, and reports how
//! many polls currently hold each status.

pub mod status;
pub mod registry;
pub mod stats;
pub mod laws;
