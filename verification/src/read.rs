//! The read-all primitive: what a read of a whole collection file means.

use crate::error::StoreError;
use vstd::prelude::*;

verus! {

/// What came of one blocking read of a collection file.
#[derive(Debug)]
pub enum ReadOutcome<T> {
    /// The file could not be opened. A collection that was never written has
    /// no file yet.
    Unopened,
    /// The file was opened and every record of it decoded, in file order.
    Documents(Vec<T>),
    /// The file was opened, and reading it or decoding a record failed.
    Failed(csv::Error),
    /// The blocking unit of work was cancelled or panicked.
    Aborted(tokio::task::JoinError),
}

/// The documents that a read stands for, or the failure it is reported as. A
/// collection without a file is the empty collection, not a failure.
pub open spec fn stored<T>(outcome: ReadOutcome<T>) -> Result<Seq<T>, StoreError> {
    match outcome {
        ReadOutcome::Unopened => Ok(Seq::empty()),
        ReadOutcome::Documents(documents) => Ok(documents@),
        ReadOutcome::Failed(error) => Err(StoreError::Read(error)),
        ReadOutcome::Aborted(error) => Err(StoreError::Worker(error)),
    }
}

/// Turns the outcome of a read into the documents of the collection, all of
/// them or none.
pub fn read_all<T>(outcome: ReadOutcome<T>) -> (result: Result<Vec<T>, StoreError>)
    ensures
        match stored(outcome) {
            Ok(documents) => result matches Ok(read) && read@ == documents,
            Err(error) => result == Err::<Vec<T>, StoreError>(error),
        },
{
    match outcome {
        ReadOutcome::Unopened => Ok(Vec::new()),
        ReadOutcome::Documents(documents) => Ok(documents),
        ReadOutcome::Failed(error) => Err(StoreError::Read(error)),
        ReadOutcome::Aborted(error) => Err(StoreError::Worker(error)),
    }
}

} // verus!
