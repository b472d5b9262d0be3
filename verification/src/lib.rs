//! Core engine of a personal work-time tracker.
//!
//! The library records work sessions (a start timestamp and an optional end
//! timestamp), derives the current status from the most recent session,
//! aggregates elapsed time into day/week/month reports, validates
//! administrative corrections, and audits the whole store for corrupted
//! intervals.  Everything here is verified; the surrounding process (argument
//! parsing, prompts, persistence, the wall clock) lives outside the library
//! and exchanges plain values with it.

pub mod cli;
pub mod db;
pub mod err;
pub mod render;
pub mod time;
