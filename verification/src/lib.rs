//! A personal work-log tracker's core: it resolves the loosely given dates
//! and periods that log entries are filed under, encodes weekly work
//! schedules and their per-month expansions as compact bitmaps, parses
//! durations and weekday names, and aggregates logged minutes for reporting.
//!
//! Every function here is a pure transformation of plain values with a
//! verified contract; storage, prompting and rendering live with the
//! surrounding program.

pub mod cli;
pub mod date;
pub mod log_entries;
pub mod parse;
pub mod resolve;
pub mod schedule;
pub mod tasks;
pub mod utils;
