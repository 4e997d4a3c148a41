//! The verified core of a small document store that keeps every collection in
//! one delimited text file.
//!
//! Each operation of the store reads a whole collection, transforms the
//! documents in memory and, if it changes anything, rewrites the whole file.
//! This crate holds what is decided in between: which file a collection lives
//! in, what a read that found no file means, which documents a predicate
//! selects or removes, in which order a rewrite opens, creates and fills the
//! file, and which failure is reported. Opening files, encoding records and
//! moving blocking work off the scheduler belong to the caller, who hands the
//! outcomes in as plain values.
//!
//! Nothing here locks a collection. Two operations that read the same
//! snapshot and both rewrite the file leave only what the later one wrote.

pub mod database;
pub mod documents;
pub mod error;
pub mod laws;
pub mod operations;
pub mod read;
pub mod write;

pub use database::Database;
pub use error::StoreError;
pub use read::ReadOutcome;
pub use write::{Step, WriteAction, WriteAll, WriteEvent};
