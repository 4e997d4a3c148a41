//! Selecting and removing documents of a collection held in memory.
//!
//! A predicate is arbitrary caller code. What it answers on a document is
//! known only as the relation `call_ensures`, so the contracts below speak of
//! a record of its answers: one verdict per document, in order.

use vstd::prelude::*;

verus! {

/// The documents whose verdict is `wanted`, in the order they have in `docs`.
pub open spec fn pick<T>(docs: Seq<T>, verdicts: Seq<bool>, wanted: bool) -> Seq<T>
    recommends
        verdicts.len() == docs.len(),
    decreases docs.len(),
{
    if docs.len() == 0 {
        Seq::empty()
    } else {
        let front = pick(docs.drop_last(), verdicts.drop_last(), wanted);
        if verdicts.last() == wanted {
            front.push(docs.last())
        } else {
            front
        }
    }
}

/// `verdicts` accepts, for each document of `docs`, an answer that a search
/// predicate can give when it is shown that document.
pub open spec fn answers<T, P: FnMut(&T) -> bool>(
    predicate: P,
    docs: Seq<T>,
    verdicts: Seq<bool>,
) -> bool {
    &&& verdicts.len() == docs.len()
    &&& forall|i: int|
        0 <= i < docs.len() ==> call_ensures(predicate, (&docs[i],), #[trigger] verdicts[i])
}

/// `verdicts` accepts, for each document of `docs`, an answer that a removal
/// predicate can give when it is shown that document.
pub open spec fn answers_by_ref<T, P: FnMut(&&T) -> bool>(
    predicate: P,
    docs: Seq<T>,
    verdicts: Seq<bool>,
) -> bool {
    &&& verdicts.len() == docs.len()
    &&& forall|i: int|
        0 <= i < docs.len() ==> call_ensures(predicate, (&&docs[i],), #[trigger] verdicts[i])
}

/// `found` is what a search of `docs` with `predicate` can return: the
/// documents that the predicate accepted, in their order.
pub open spec fn selected<T, P: FnMut(&T) -> bool>(
    predicate: P,
    docs: Seq<T>,
    found: Seq<T>,
) -> bool {
    exists|verdicts: Seq<bool>| #[trigger]
        answers(predicate, docs, verdicts) && found == pick(docs, verdicts, true)
}

/// `left` is what removing from `docs` every document that `predicate`
/// matches can leave: the documents that it did not match, in their order.
pub open spec fn spared<T, P: FnMut(&&T) -> bool>(
    predicate: P,
    docs: Seq<T>,
    left: Seq<T>,
) -> bool {
    exists|verdicts: Seq<bool>| #[trigger]
        answers_by_ref(predicate, docs, verdicts) && left == pick(docs, verdicts, false)
}

/// `contents` is what replacing in `docs` every document that `predicate`
/// matches by `document` can leave: the documents that it did not match, in
/// their order, then `document`.
pub open spec fn replaced<T, P: FnMut(&&T) -> bool>(
    predicate: P,
    docs: Seq<T>,
    document: T,
    contents: Seq<T>,
) -> bool {
    exists|left: Seq<T>| #[trigger] spared(predicate, docs, left) && contents == left.push(document)
}

/// A search predicate that cannot but accept `document`.
pub open spec fn accepts<T, P: FnMut(&T) -> bool>(predicate: P, document: T) -> bool {
    !call_ensures(predicate, (&document,), false)
}

/// A search predicate that cannot but reject `document`.
pub open spec fn rejects<T, P: FnMut(&T) -> bool>(predicate: P, document: T) -> bool {
    !call_ensures(predicate, (&document,), true)
}

/// A removal predicate that cannot but match `document`.
pub open spec fn removes<T, P: FnMut(&&T) -> bool>(predicate: P, document: T) -> bool {
    !call_ensures(predicate, (&&document,), false)
}

/// A removal predicate that cannot match `document`.
pub open spec fn spares<T, P: FnMut(&&T) -> bool>(predicate: P, document: T) -> bool {
    !call_ensures(predicate, (&&document,), true)
}

/// Keeps the documents that `predicate` accepts, in their order. The
/// predicate is called once on each document, from the first to the last.
pub fn select<T, P: FnMut(&T) -> bool>(documents: Vec<T>, mut predicate: P) -> (found: Vec<T>)
    requires
        forall|i: int|
            0 <= i < documents.len() ==> call_requires(predicate, (&#[trigger] documents[i],)),
    ensures
        selected(predicate, documents@, found@),
{
    let ghost asked = predicate;
    let ghost mut verdicts: Seq<bool> = Seq::empty();
    let mut found: Vec<T> = Vec::new();
    for document in it: documents
        invariant
            predicate == asked,
            forall|i: int| 0 <= i < documents.len() ==> call_requires(predicate, (&documents[i],)),
            it.seq() == documents@,
            answers(predicate, documents@.take(it.index()), verdicts),
            found@ == pick(documents@.take(it.index()), verdicts, true),
    {
        let verdict = predicate(&document);
        proof {
            let seen = documents@.take(it.index());
            assert(documents@.take(it.index() + 1).drop_last() =~= seen);
            assert(verdicts.push(verdict).drop_last() =~= verdicts);
            verdicts = verdicts.push(verdict);
        }
        if verdict {
            found.push(document);
        }
    }
    proof {
        assert(documents@.take(documents@.len() as int) =~= documents@);
    }
    found
}

/// Removes the documents that `predicate` matches and keeps the others, in
/// their order. The predicate is called once on each document, from the
/// first to the last.
pub fn discard<T, P: FnMut(&&T) -> bool>(documents: Vec<T>, mut predicate: P) -> (left: Vec<T>)
    requires
        forall|i: int|
            0 <= i < documents.len() ==> call_requires(predicate, (&&#[trigger] documents[i],)),
    ensures
        spared(predicate, documents@, left@),
{
    let ghost asked = predicate;
    let ghost mut verdicts: Seq<bool> = Seq::empty();
    let mut left: Vec<T> = Vec::new();
    for document in it: documents
        invariant
            predicate == asked,
            forall|i: int|
                0 <= i < documents.len() ==> call_requires(predicate, (&&documents[i],)),
            it.seq() == documents@,
            answers_by_ref(predicate, documents@.take(it.index()), verdicts),
            left@ == pick(documents@.take(it.index()), verdicts, false),
    {
        let shown = &document;
        let verdict = predicate(&shown);
        proof {
            let seen = documents@.take(it.index());
            assert(documents@.take(it.index() + 1).drop_last() =~= seen);
            assert(verdicts.push(verdict).drop_last() =~= verdicts);
            verdicts = verdicts.push(verdict);
        }
        if !verdict {
            left.push(document);
        }
    }
    proof {
        assert(documents@.take(documents@.len() as int) =~= documents@);
    }
    left
}

/// Where every verdict is the wanted one, every document is picked.
pub proof fn lemma_pick_all<T>(docs: Seq<T>, verdicts: Seq<bool>, wanted: bool)
    requires
        verdicts.len() == docs.len(),
        forall|i: int| 0 <= i < verdicts.len() ==> verdicts[i] == wanted,
    ensures
        pick(docs, verdicts, wanted) == docs,
    decreases docs.len(),
{
    if docs.len() > 0 {
        lemma_pick_all(docs.drop_last(), verdicts.drop_last(), wanted);
        assert(docs.drop_last().push(docs.last()) =~= docs);
    } else {
        assert(docs =~= Seq::empty());
    }
}

/// Where no verdict is the wanted one, no document is picked.
pub proof fn lemma_pick_none<T>(docs: Seq<T>, verdicts: Seq<bool>, wanted: bool)
    requires
        verdicts.len() == docs.len(),
        forall|i: int| 0 <= i < verdicts.len() ==> verdicts[i] != wanted,
    ensures
        pick(docs, verdicts, wanted) == Seq::<T>::empty(),
    decreases docs.len(),
{
    if docs.len() > 0 {
        lemma_pick_none(docs.drop_last(), verdicts.drop_last(), wanted);
    }
}

/// Picking from a collection with one more document at its end.
pub proof fn lemma_pick_push<T>(docs: Seq<T>, verdicts: Seq<bool>, wanted: bool, last: T, verdict: bool)
    requires
        verdicts.len() == docs.len(),
    ensures
        pick(docs.push(last), verdicts.push(verdict), wanted) == if verdict == wanted {
            pick(docs, verdicts, wanted).push(last)
        } else {
            pick(docs, verdicts, wanted)
        },
{
    assert(docs.push(last).drop_last() =~= docs);
    assert(verdicts.push(verdict).drop_last() =~= verdicts);
}

} // verus!
