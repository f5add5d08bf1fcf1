//! A differential-testing harness for compiler forks.
//!
//! The harness walks a corpus of package checkouts, runs each package's test
//! suite under a reference compiler and several variants, and ranks the
//! results so that divergences surface first. This crate holds the decisions
//! of that engine as verified state machines and pure functions; the caller
//! performs the file, process and terminal operations that they ask for.

pub mod coordinator;
pub mod corpus;
pub mod dashboard;
pub mod encoding;
pub mod engine;
pub mod error;
pub mod export;
pub mod listing;
pub mod outcome;
pub mod ranking;
pub mod runner;
pub mod text;
pub mod ui;
pub mod walker;

