//! An HTTP load generator's engine: a configured list of requests is replayed
//! against one host by a fixed number of workers that share a queue of
//! commands, and every request yields one timed result.
//!
//! The crate holds the decisions of that engine. What touches the network,
//! the clock or the scheduler is left to the caller, which performs the
//! actions that the functions here return and reports back what happened.

pub mod args;
pub mod config;
pub mod laws;
pub mod logger;
pub mod model;
pub mod outside;
pub mod schedule;
pub mod text;
pub mod views;
pub mod worker;
