//! A download and materialization engine: the decisions that a pool of
//! workers takes while fetching files with bounded retries, committing them
//! atomically, creating directories, and recovering staging artifacts left
//! behind by an interrupted run.
//!
//! Every decision is a verified function from plain values to plain values;
//! the surrounding runtime performs the actions and reports the events.
pub mod config;
pub mod fetch;
pub mod paths;
pub mod recovery;
pub mod resolve;
pub mod target;
pub mod worker;
