//! The write-all primitive: the order in which a collection file is replaced.
//!
//! A rewrite is a short conversation. The library names the next thing to do
//! to the file, the caller does it and reports how it went, and the library
//! answers with the next thing or with the end of the rewrite. The library
//! touches no file; the caller decides nothing.
//!
//! The order is fixed: make sure the folder of the file exists, open the file
//! for writing (which empties it), then encode the documents one by one, the
//! first one first. A first open that fails for an I/O reason is tried once
//! more after creating the file. Any other failure ends the rewrite, and the
//! file is left as the failed attempt made it.

use crate::error::StoreError;
use vstd::prelude::*;

verus! {

/// What the caller is asked to do to the collection file.
#[derive(Debug)]
pub enum WriteAction<T> {
    /// Create the folder that holds the file, with every missing folder above
    /// it.
    EnsureDirectory,
    /// Open the file for writing and empty it, creating it if it is missing.
    Open,
    /// Create the file, empty.
    Create,
    /// Encode this document as the next record of the open file.
    Encode(T),
}

/// How the action that was asked for went.
#[derive(Debug)]
pub enum WriteEvent {
    /// It was done.
    Done,
    /// It failed.
    Failed(csv::Error),
}

/// The action whose outcome a rewrite is waiting for.
#[derive(Debug)]
pub enum Stage {
    /// `EnsureDirectory`.
    Directory,
    /// The first `Open`.
    Opening,
    /// `Create`, asked for because the first `Open` failed with this error.
    Creating(csv::Error),
    /// The second `Open`, after the file was created.
    Reopening,
    /// `Encode` of the document that was handed out last.
    Encoding,
}

/// A rewrite as the contracts see it.
pub struct WriteModel<T> {
    /// The action whose outcome is awaited.
    pub stage: Stage,
    /// The documents that were not handed out yet, the next one first.
    pub pending: Seq<T>,
}

/// A step of a rewrite as the contracts see it.
pub enum StepModel<T> {
    /// The rewrite goes on in this state, once the caller has done this.
    Continue(WriteModel<T>, WriteAction<T>),
    /// The rewrite is over, with this result.
    Finished(Result<(), csv::Error>),
}

/// The rewrite of `documents` before anything was done: the folder comes
/// first.
pub open spec fn opening_move<T>(documents: Seq<T>) -> WriteModel<T> {
    WriteModel { stage: Stage::Directory, pending: documents }
}

/// What follows once the file is open and empty: the first document, or the
/// end where there is none.
pub open spec fn fill<T>(pending: Seq<T>) -> StepModel<T> {
    if pending.len() == 0 {
        StepModel::Finished(Ok(()))
    } else {
        StepModel::Continue(
            WriteModel { stage: Stage::Encoding, pending: pending.drop_first() },
            WriteAction::Encode(pending.first()),
        )
    }
}

/// The step that answers `event` in `state`. `io` says whether a failure is
/// an I/O failure; it matters only where the first open failed.
pub open spec fn next<T>(state: WriteModel<T>, event: WriteEvent, io: bool) -> StepModel<T> {
    match (state.stage, event) {
        (Stage::Directory, WriteEvent::Done) => StepModel::Continue(
            WriteModel { stage: Stage::Opening, pending: state.pending },
            WriteAction::Open,
        ),
        (Stage::Opening, WriteEvent::Done) => fill(state.pending),
        (Stage::Opening, WriteEvent::Failed(error)) => if io {
            StepModel::Continue(
                WriteModel { stage: Stage::Creating(error), pending: state.pending },
                WriteAction::Create,
            )
        } else {
            StepModel::Finished(Err(error))
        },
        (Stage::Creating(_), WriteEvent::Done) => StepModel::Continue(
            WriteModel { stage: Stage::Reopening, pending: state.pending },
            WriteAction::Open,
        ),
        (Stage::Creating(first), WriteEvent::Failed(_)) => StepModel::Finished(Err(first)),
        (Stage::Reopening, WriteEvent::Done) => fill(state.pending),
        (Stage::Encoding, WriteEvent::Done) => fill(state.pending),
        (_, WriteEvent::Failed(error)) => StepModel::Finished(Err(error)),
    }
}

/// A rewrite of a collection file that is under way.
#[derive(Debug)]
pub struct WriteAll<T> {
    stage: Stage,
    /// The documents that were not handed out yet, the next one last.
    backlog: Vec<T>,
}

/// What a rewrite answers to an event.
#[derive(Debug)]
pub enum Step<T> {
    /// The caller does the action and reports its outcome to the state.
    Continue(WriteAll<T>, WriteAction<T>),
    /// The rewrite is over: the file holds every document, or the rewrite
    /// failed.
    Finished(Result<(), csv::Error>),
}

impl<T> View for WriteAll<T> {
    type V = WriteModel<T>;

    closed spec fn view(&self) -> WriteModel<T> {
        WriteModel { stage: self.stage, pending: self.backlog@.reverse() }
    }
}

impl<T> View for Step<T> {
    type V = StepModel<T>;

    open spec fn view(&self) -> StepModel<T> {
        match *self {
            Step::Continue(state, action) => StepModel::Continue(state@, action),
            Step::Finished(result) => StepModel::Finished(result),
        }
    }
}

/// `csv::Error::kind`: whether the error is of the kind `ErrorKind::Io`, an
/// I/O failure below the codec. The answer is read off the error and nothing
/// is claimed of it here.
#[verifier::external_body]
fn is_io_failure(error: &csv::Error) -> (io: bool) {
    matches!(error.kind(), csv::ErrorKind::Io(_))
}

proof fn lemma_reverse_drop<T>(backlog: Seq<T>)
    requires
        backlog.len() > 0,
    ensures
        backlog.reverse().first() == backlog.last(),
        backlog.drop_last().reverse() == backlog.reverse().drop_first(),
{
    assert(backlog.drop_last().reverse() =~= backlog.reverse().drop_first());
}

impl<T> WriteAll<T> {
    /// Starts the rewrite of a collection file with `documents`. Returns the
    /// rewrite and the first thing to do.
    pub fn begin(documents: Vec<T>) -> (start: (Self, WriteAction<T>))
        ensures
            start.0@ == opening_move(documents@),
            start.1 == WriteAction::<T>::EnsureDirectory,
    {
        let ghost all = documents@;
        let mut rest = documents;
        let mut backlog: Vec<T> = Vec::new();
        while rest.len() > 0
            invariant
                rest@ + backlog@.reverse() == all,
            decreases rest.len(),
        {
            let ghost before = rest@;
            let ghost turned = backlog@.reverse();
            let document = rest.pop().unwrap();
            backlog.push(document);
            proof {
                assert(backlog@.reverse() =~= seq![document] + turned);
                assert(rest@ + backlog@.reverse() =~= before + turned);
            }
        }
        proof {
            assert(backlog@.reverse() =~= all);
        }
        (WriteAll { stage: Stage::Directory, backlog }, WriteAction::EnsureDirectory)
    }

    /// The documents that were not handed out yet.
    pub fn pending(&self) -> (count: usize)
        ensures
            count == self@.pending.len(),
    {
        self.backlog.len()
    }

    /// Answers the outcome of the action that was asked for last.
    ///
    /// Where the first open failed, the error itself says whether the file
    /// is created and opened once more; everywhere else the answer is that
    /// of [`next`], whatever kind the error is of.
    pub fn step(self, event: WriteEvent) -> (step: Step<T>)
        ensures
            step@ == next(self@, event, true) || step@ == next(self@, event, false),
            !(self@.stage is Opening && event is Failed) ==> step@ == next(self@, event, false),
    {
        let io = match (&self.stage, &event) {
            (Stage::Opening, WriteEvent::Failed(error)) => is_io_failure(error),
            _ => false,
        };
        self.advance(event, io)
    }

    /// Answers the outcome of the action that was asked for last, where `io`
    /// says whether a failure is an I/O failure.
    pub fn advance(self, event: WriteEvent, io: bool) -> (step: Step<T>)
        ensures
            step@ == next(self@, event, io),
    {
        let WriteAll { stage, backlog } = self;
        match (stage, event) {
            (Stage::Directory, WriteEvent::Done) => Step::Continue(
                WriteAll { stage: Stage::Opening, backlog },
                WriteAction::Open,
            ),
            (Stage::Opening, WriteEvent::Done) => Self::fill(backlog),
            (Stage::Opening, WriteEvent::Failed(error)) => if io {
                Step::Continue(WriteAll { stage: Stage::Creating(error), backlog }, WriteAction::Create)
            } else {
                Step::Finished(Err(error))
            },
            (Stage::Creating(_), WriteEvent::Done) => Step::Continue(
                WriteAll { stage: Stage::Reopening, backlog },
                WriteAction::Open,
            ),
            (Stage::Creating(first), WriteEvent::Failed(_)) => Step::Finished(Err(first)),
            (Stage::Reopening, WriteEvent::Done) => Self::fill(backlog),
            (Stage::Encoding, WriteEvent::Done) => Self::fill(backlog),
            (_, WriteEvent::Failed(error)) => Step::Finished(Err(error)),
        }
    }

    fn fill(backlog: Vec<T>) -> (step: Step<T>)
        ensures
            step@ == fill(backlog@.reverse()),
    {
        let mut backlog = backlog;
        let ghost before = backlog@;
        match backlog.pop() {
            None => Step::Finished(Ok(())),
            Some(document) => {
                proof {
                    lemma_reverse_drop(before);
                }
                Step::Continue(WriteAll { stage: Stage::Encoding, backlog }, WriteAction::Encode(document))
            },
        }
    }
}

/// What a rewrite is reported as, from what the blocking unit of work that
/// ran it came to.
pub open spec fn settled(outcome: Result<Result<(), csv::Error>, tokio::task::JoinError>) -> Result<
    (),
    StoreError,
> {
    match outcome {
        Ok(Ok(())) => Ok(()),
        Ok(Err(error)) => Err(StoreError::Write(error)),
        Err(error) => Err(StoreError::Worker(error)),
    }
}

/// Reports the end of a rewrite: done, failed on the file, or never run to
/// its end.
pub fn written(outcome: Result<Result<(), csv::Error>, tokio::task::JoinError>) -> (result: Result<
    (),
    StoreError,
>)
    ensures
        result == settled(outcome),
{
    match outcome {
        Ok(Ok(())) => Ok(()),
        Ok(Err(error)) => Err(StoreError::Write(error)),
        Err(error) => Err(StoreError::Worker(error)),
    }
}

} // verus!
