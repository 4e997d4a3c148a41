//! The four operations of the store, from what was read to what is returned
//! or written.
//!
//! Each operation takes the outcome of reading the whole collection. A search
//! returns documents and asks for no write. The three others return the whole
//! new contents of the collection, which the caller writes in place of the
//! old file. A read that failed ends the operation: nothing is written then.

use crate::database::Database;
use crate::documents::{discard, replaced, select, selected, spared};
use crate::error::StoreError;
use crate::read::{read_all, stored, ReadOutcome};
use vstd::prelude::*;

verus! {

/// A search predicate may be called on every document of `docs`.
pub open spec fn searchable<T, P: FnMut(&T) -> bool>(predicate: P, docs: Seq<T>) -> bool {
    forall|i: int| 0 <= i < docs.len() ==> call_requires(predicate, (&#[trigger] docs[i],))
}

/// A removal predicate may be called on every document of `docs`.
pub open spec fn removable<T, P: FnMut(&&T) -> bool>(predicate: P, docs: Seq<T>) -> bool {
    forall|i: int| 0 <= i < docs.len() ==> call_requires(predicate, (&&#[trigger] docs[i],))
}

impl<PA> Database<PA> {
    /// Find documents by filtering with a predicate on a collection.
    ///
    /// Returns the documents that the predicate accepts, in the order of the
    /// collection. A collection without a file has no documents.
    pub fn find<T, P>(&self, read: ReadOutcome<T>, predicate: P) -> (result: Result<
        Vec<T>,
        StoreError,
    >) where P: FnMut(&T) -> bool
        requires
            stored(read) matches Ok(docs) ==> searchable(predicate, docs),
        ensures
            match stored(read) {
                Ok(docs) => result matches Ok(found) && selected(predicate, docs, found@),
                Err(error) => result == Err::<Vec<T>, StoreError>(error),
            },
            read is Unopened ==> (result matches Ok(found) && found@ == Seq::<T>::empty()),
    {
        match read_all(read) {
            Ok(documents) => Ok(select(documents, predicate)),
            Err(error) => Err(error),
        }
    }

    /// Insert a new document into a collection.
    ///
    /// Returns the new contents: what was read, then the document. No
    /// document is compared with another, so duplicates are kept.
    pub fn insert<T>(&self, read: ReadOutcome<T>, document: T) -> (result: Result<
        Vec<T>,
        StoreError,
    >)
        ensures
            match stored(read) {
                Ok(docs) => result matches Ok(contents) && contents@ == docs.push(document),
                Err(error) => result == Err::<Vec<T>, StoreError>(error),
            },
    {
        match read_all(read) {
            Ok(mut documents) => {
                documents.push(document);
                Ok(documents)
            },
            Err(error) => Err(error),
        }
    }

    /// Delete a document by filtering with a predicate from a collection.
    ///
    /// Returns the new contents: the documents that the predicate does not
    /// match, in their order. All of them where it matches none, none where
    /// it matches all.
    pub fn delete<T, P>(&self, read: ReadOutcome<T>, predicate: P) -> (result: Result<
        Vec<T>,
        StoreError,
    >) where T: PartialEq, P: FnMut(&&T) -> bool
        requires
            stored(read) matches Ok(docs) ==> removable(predicate, docs),
        ensures
            match stored(read) {
                Ok(docs) => result matches Ok(contents) && spared(predicate, docs, contents@),
                Err(error) => result == Err::<Vec<T>, StoreError>(error),
            },
    {
        match read_all(read) {
            Ok(documents) => Ok(discard(documents, predicate)),
            Err(error) => Err(error),
        }
    }

    /// Update a document by filtering with a predicate on a collection.
    ///
    /// Returns the new contents: the documents that the predicate does not
    /// match, in their order, then the document. However many documents the
    /// predicate matches, the new one is there once, at the end.
    pub fn update<T, P>(&self, read: ReadOutcome<T>, document: T, predicate: P) -> (result:
        Result<Vec<T>, StoreError>) where T: PartialEq, P: FnMut(&&T) -> bool
        requires
            stored(read) matches Ok(docs) ==> removable(predicate, docs),
        ensures
            match stored(read) {
                Ok(docs) => result matches Ok(contents) && replaced(
                    predicate,
                    docs,
                    document,
                    contents@,
                ),
                Err(error) => result == Err::<Vec<T>, StoreError>(error),
            },
    {
        match read_all(read) {
            Ok(documents) => {
                let mut contents = discard(documents, predicate);
                contents.push(document);
                Ok(contents)
            },
            Err(error) => Err(error),
        }
    }
}

} // verus!
