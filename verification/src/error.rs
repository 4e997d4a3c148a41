//! The failures that an operation of the store reports.

use vstd::prelude::*;

verus! {

/// `csv::Error`, what the record codec reports when a file cannot be opened,
/// read or written or a record cannot be decoded or encoded. Nothing is
/// claimed of what a value of it holds: it is carried to the caller as it
/// came.
#[verifier::external_type_specification]
#[verifier::external_body]
pub struct ExCsvError(csv::Error);

/// `tokio::task::JoinError`, what the worker pool reports when a blocking
/// unit of work was cancelled or panicked. Nothing is claimed of what a value
/// of it holds.
#[verifier::external_type_specification]
#[verifier::external_body]
pub struct ExJoinError(tokio::task::JoinError);

/// Why an operation failed. An operation that fails returns nothing else:
/// there is no partial result.
#[derive(Debug)]
pub enum StoreError {
    /// The collection file was opened, and reading it or decoding one of its
    /// records failed.
    Read(csv::Error),
    /// The collection file could not be rewritten. The file holds whatever
    /// the attempt left behind.
    Write(csv::Error),
    /// The blocking unit of work did not run to its end: the data operation
    /// itself is not known to have failed.
    Worker(tokio::task::JoinError),
}

} // verus!
