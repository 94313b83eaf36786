//! An in-memory job queue.
//!
//! The [`repository`] module holds the job records, the pending queue and the
//! lifecycle rules that every job follows. The [`web`] module holds what a
//! front end needs to present the repository over HTTP.

pub mod repository;
pub mod web;
