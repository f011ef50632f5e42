//! A load-testing harness for a request/response prediction service.
//!
//! The crate holds the decisions of the harness: how command-line arguments
//! become a configuration, how one virtual user walks through warm-up and
//! measurement, how latency windows are summarised, how report lines are laid
//! out, and how the results of several users are combined. Everything is kept
//! in integers (nanoseconds, thousandths of a percent), so every result is
//! stated exactly.

pub mod config;
pub mod coordinator;
pub mod report;
pub mod service;
pub mod stats;
pub mod user;
