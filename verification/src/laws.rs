//! What accepts of the operations taken together.
//!
//! The laws speak of the contents of a collection as a sequence of documents
//! and of the relations that the operations' contracts use. Between two
//! operations stands the file: a law that follows one operation by another
//! takes what the first returned as what the second read.

use crate::documents::{
    accepts, answers, answers_by_ref, lemma_pick_all, lemma_pick_none, lemma_pick_push, pick,
    rejects, removes, replaced, selected, spared, spares,
};
use crate::write::{next, opening_move, Stage, StepModel, WriteAction, WriteEvent, WriteModel};
use vstd::prelude::*;

verus! {

/// Whatever a search predicate answers on a document of `docs` is what
/// `wanted` says of that document.
pub open spec fn obeys<T, P: FnMut(&T) -> bool>(
    predicate: P,
    docs: Seq<T>,
    wanted: spec_fn(T) -> bool,
) -> bool {
    forall|i: int, answer: bool|
        0 <= i < docs.len() && #[trigger] call_ensures(predicate, (&docs[i],), answer) ==> answer
            == wanted(docs[i])
}

/// Whatever a removal predicate answers on a document of `docs` is what
/// `doomed` says of that document.
pub open spec fn obeys_by_ref<T, P: FnMut(&&T) -> bool>(
    predicate: P,
    docs: Seq<T>,
    doomed: spec_fn(T) -> bool,
) -> bool {
    forall|i: int, answer: bool|
        0 <= i < docs.len() && #[trigger] call_ensures(predicate, (&&docs[i],), answer) ==> answer
            == doomed(docs[i])
}

/// The contents of a collection file after it was rewritten with `contents`:
/// a rewrite replaces the whole file, whatever it held.
pub open spec fn rewritten<T>(file: Seq<T>, contents: Seq<T>) -> Seq<T> {
    contents
}

/// A search with a predicate that answers as `wanted` says returns exactly
/// the documents that `wanted` holds of, in their order.
pub proof fn lemma_search_filters<T, P: FnMut(&T) -> bool>(
    predicate: P,
    docs: Seq<T>,
    wanted: spec_fn(T) -> bool,
    found: Seq<T>,
)
    requires
        obeys(predicate, docs, wanted),
        selected(predicate, docs, found),
    ensures
        found == docs.filter(wanted),
{
    let verdicts = choose|verdicts: Seq<bool>| #[trigger]
        answers(predicate, docs, verdicts) && found == pick(docs, verdicts, true);
    assert forall|i: int| 0 <= i < docs.len() implies #[trigger] verdicts[i] == wanted(docs[i]) by {
        assert(call_ensures(predicate, (&docs[i],), verdicts[i]));
    }
    lemma_pick_filters(docs, verdicts, true, wanted);
}

/// A removal with a predicate that answers as `doomed` says leaves exactly
/// the documents that `doomed` does not hold of, in their order.
pub proof fn lemma_removal_filters<T, P: FnMut(&&T) -> bool>(
    predicate: P,
    docs: Seq<T>,
    doomed: spec_fn(T) -> bool,
    left: Seq<T>,
)
    requires
        obeys_by_ref(predicate, docs, doomed),
        spared(predicate, docs, left),
    ensures
        left == docs.filter(|document: T| !doomed(document)),
{
    let verdicts = choose|verdicts: Seq<bool>| #[trigger]
        answers_by_ref(predicate, docs, verdicts) && left == pick(docs, verdicts, false);
    let kept = |document: T| !doomed(document);
    assert forall|i: int| 0 <= i < docs.len() implies (#[trigger] verdicts[i] == false) == kept(
        docs[i],
    ) by {
        assert(call_ensures(predicate, (&&docs[i],), verdicts[i]));
    }
    lemma_pick_filters(docs, verdicts, false, kept);
}

proof fn lemma_pick_filters<T>(
    docs: Seq<T>,
    verdicts: Seq<bool>,
    wanted: bool,
    keep: spec_fn(T) -> bool,
)
    requires
        verdicts.len() == docs.len(),
        forall|i: int| 0 <= i < docs.len() ==> (#[trigger] verdicts[i] == wanted) == keep(docs[i]),
    ensures
        pick(docs, verdicts, wanted) == docs.filter(keep),
    decreases docs.len(),
{
    reveal(Seq::filter);
    if docs.len() > 0 {
        let front = docs.drop_last();
        assert forall|i: int| 0 <= i < front.len() implies (#[trigger] verdicts.drop_last()[i]
            == wanted) == keep(front[i]) by {
            assert(front[i] == docs[i]);
            assert(verdicts.drop_last()[i] == verdicts[i]);
        }
        lemma_pick_filters(front, verdicts.drop_last(), wanted, keep);
        let last = docs.len() - 1;
        assert((verdicts[last] == wanted) == keep(docs[last]));
    }
}

/// A search with a predicate that accepts every document returns the whole
/// collection, in its order.
pub proof fn lemma_search_all<T, P: FnMut(&T) -> bool>(predicate: P, docs: Seq<T>, found: Seq<T>)
    requires
        forall|i: int| 0 <= i < docs.len() ==> accepts(predicate, #[trigger] docs[i]),
        selected(predicate, docs, found),
    ensures
        found == docs,
{
    let verdicts = choose|verdicts: Seq<bool>| #[trigger]
        answers(predicate, docs, verdicts) && found == pick(docs, verdicts, true);
    assert forall|i: int| 0 <= i < verdicts.len() implies verdicts[i] == true by {
        assert(accepts(predicate, docs[i]));
    }
    lemma_pick_all(docs, verdicts, true);
}

/// Round trip: a document inserted into an empty collection is the one
/// document that a search with a predicate that accepts everything returns.
pub proof fn lemma_insert_then_find<T, P: FnMut(&T) -> bool>(
    document: T,
    predicate: P,
    found: Seq<T>,
)
    requires
        accepts(predicate, document),
        selected(predicate, Seq::<T>::empty().push(document), found),
    ensures
        found == seq![document],
{
    lemma_search_all(predicate, Seq::<T>::empty().push(document), found);
    assert(Seq::<T>::empty().push(document) =~= seq![document]);
}

/// Append order: two documents inserted one after the other stand at the end
/// of the collection in the order of their insertion, and a search with a
/// predicate that accepts everything returns them so. In an empty collection
/// they are all there is.
pub proof fn lemma_inserts_keep_order<T, P: FnMut(&T) -> bool>(
    docs: Seq<T>,
    first: T,
    second: T,
    predicate: P,
    found: Seq<T>,
)
    requires
        forall|i: int| 0 <= i < docs.len() ==> accepts(predicate, #[trigger] docs[i]),
        accepts(predicate, first),
        accepts(predicate, second),
        selected(predicate, docs.push(first).push(second), found),
    ensures
        found == docs + seq![first, second],
        docs.len() == 0 ==> found == seq![first, second],
{
    let all = docs.push(first).push(second);
    assert forall|i: int| 0 <= i < all.len() implies accepts(predicate, #[trigger] all[i]) by {
        if i < docs.len() {
            assert(all[i] == docs[i]);
        }
    }
    lemma_search_all(predicate, all, found);
    assert(all =~= docs + seq![first, second]);
    if docs.len() == 0 {
        assert(docs + seq![first, second] =~= seq![first, second]);
    }
}

/// Delete removes what matches: of three documents of which the predicate
/// matches the middle one only, the two others are left, in their order.
pub proof fn lemma_delete_matching<T, P: FnMut(&&T) -> bool>(
    a: T,
    b: T,
    c: T,
    predicate: P,
    left: Seq<T>,
)
    requires
        spares(predicate, a),
        removes(predicate, b),
        spares(predicate, c),
        spared(predicate, seq![a, b, c], left),
    ensures
        left == seq![a, c],
{
    let docs = seq![a, b, c];
    let verdicts = choose|verdicts: Seq<bool>| #[trigger]
        answers_by_ref(predicate, docs, verdicts) && left == pick(docs, verdicts, false);
    assert(call_ensures(predicate, (&&docs[0],), verdicts[0]));
    assert(call_ensures(predicate, (&&docs[1],), verdicts[1]));
    assert(call_ensures(predicate, (&&docs[2],), verdicts[2]));
    assert(verdicts =~= seq![false, true, false]);
    lemma_pick_push(Seq::<T>::empty(), Seq::<bool>::empty(), false, a, false);
    lemma_pick_push(seq![a], seq![false], false, b, true);
    lemma_pick_push(seq![a, b], seq![false, true], false, c, false);
    assert(Seq::<T>::empty().push(a) =~= seq![a]);
    assert(seq![a].push(b) =~= seq![a, b]);
    assert(seq![a, b].push(c) =~= docs);
    assert(Seq::<bool>::empty().push(false) =~= seq![false]);
    assert(seq![false].push(true) =~= seq![false, true]);
    assert(seq![false, true].push(false) =~= verdicts);
    assert(seq![a].push(c) =~= seq![a, c]);
}

/// Delete with a predicate that matches nothing leaves the collection as it
/// was: the same documents in the same order.
pub proof fn lemma_delete_none<T, P: FnMut(&&T) -> bool>(predicate: P, docs: Seq<T>, left: Seq<T>)
    requires
        forall|i: int| 0 <= i < docs.len() ==> spares(predicate, #[trigger] docs[i]),
        spared(predicate, docs, left),
    ensures
        left == docs,
{
    let verdicts = choose|verdicts: Seq<bool>| #[trigger]
        answers_by_ref(predicate, docs, verdicts) && left == pick(docs, verdicts, false);
    assert forall|i: int| 0 <= i < verdicts.len() implies verdicts[i] == false by {
        assert(spares(predicate, docs[i]));
    }
    lemma_pick_all(docs, verdicts, false);
}

/// Delete with a predicate that matches everything empties the collection.
pub proof fn lemma_delete_every<T, P: FnMut(&&T) -> bool>(predicate: P, docs: Seq<T>, left: Seq<T>)
    requires
        forall|i: int| 0 <= i < docs.len() ==> removes(predicate, #[trigger] docs[i]),
        spared(predicate, docs, left),
    ensures
        left == Seq::<T>::empty(),
{
    let verdicts = choose|verdicts: Seq<bool>| #[trigger]
        answers_by_ref(predicate, docs, verdicts) && left == pick(docs, verdicts, false);
    assert forall|i: int| 0 <= i < verdicts.len() implies verdicts[i] != false by {
        assert(removes(predicate, docs[i]));
    }
    lemma_pick_none(docs, verdicts, false);
}

/// Update is delete, then append: of two documents of which the predicate
/// matches the first one only, the second is left and the new document
/// follows it. The new document does not take the place of the old one.
pub proof fn lemma_update_appends<T, P: FnMut(&&T) -> bool>(
    a: T,
    b: T,
    replacement: T,
    predicate: P,
    contents: Seq<T>,
)
    requires
        removes(predicate, a),
        spares(predicate, b),
        replaced(predicate, seq![a, b], replacement, contents),
    ensures
        contents == seq![b, replacement],
{
    let docs = seq![a, b];
    let left = choose|left: Seq<T>| #[trigger]
        spared(predicate, docs, left) && contents == left.push(replacement);
    let verdicts = choose|verdicts: Seq<bool>| #[trigger]
        answers_by_ref(predicate, docs, verdicts) && left == pick(docs, verdicts, false);
    assert(call_ensures(predicate, (&&docs[0],), verdicts[0]));
    assert(call_ensures(predicate, (&&docs[1],), verdicts[1]));
    assert(verdicts =~= seq![true, false]);
    lemma_pick_push(Seq::<T>::empty(), Seq::<bool>::empty(), false, a, true);
    lemma_pick_push(seq![a], seq![true], false, b, false);
    assert(Seq::<T>::empty().push(a) =~= seq![a]);
    assert(seq![a].push(b) =~= docs);
    assert(Seq::<bool>::empty().push(true) =~= seq![true]);
    assert(seq![true].push(false) =~= verdicts);
    assert(Seq::<T>::empty().push(b).push(replacement) =~= seq![b, replacement]);
}

/// A search of a collection that has no documents finds none, whatever the
/// predicate.
pub proof fn lemma_search_empty<T, P: FnMut(&T) -> bool>(predicate: P, found: Seq<T>)
    requires
        selected(predicate, Seq::<T>::empty(), found),
    ensures
        found == Seq::<T>::empty(),
{
}

/// Searching twice finds the same: with a predicate that answers as
/// `wanted` says, two searches of the same contents return the same
/// documents.
pub proof fn lemma_search_repeats<T, P: FnMut(&T) -> bool>(
    predicate: P,
    docs: Seq<T>,
    wanted: spec_fn(T) -> bool,
    once: Seq<T>,
    again: Seq<T>,
)
    requires
        obeys(predicate, docs, wanted),
        selected(predicate, docs, once),
        selected(predicate, docs, again),
    ensures
        once == again,
{
    lemma_search_filters(predicate, docs, wanted, once);
    lemma_search_filters(predicate, docs, wanted, again);
}

/// The later rewrite wins. Two inserts that both read the collection before
/// either wrote it leave the file as the later writer made it: the document
/// of the earlier one is lost, unless it was stored before or is the same as
/// the later one. Into an empty collection, only the later document is left.
pub proof fn lemma_later_rewrite_wins<T>(file: Seq<T>, earlier: T, later: T)
    ensures
        rewritten(rewritten(file, file.push(earlier)), file.push(later)) == file.push(later),
        !file.contains(earlier) && earlier != later ==> !rewritten(
            rewritten(file, file.push(earlier)),
            file.push(later),
        ).contains(earlier),
        file.len() == 0 ==> rewritten(rewritten(file, file.push(earlier)), file.push(later))
            == seq![later],
{
    let last = file.push(later);
    if !file.contains(earlier) && earlier != later {
        if last.contains(earlier) {
            let i = choose|i: int| 0 <= i < last.len() && last[i] == earlier;
            if i < file.len() {
                assert(file[i] == earlier);
            }
        }
    }
    if file.len() == 0 {
        assert(last =~= seq![later]);
    }
}

/// One report of the caller to a rewrite: how the action that was asked for
/// went and, for a failure, whether it is an I/O failure.
pub struct Report {
    pub event: WriteEvent,
    pub io: bool,
}

/// How a rewrite that is in `state` ends when the caller reports `reports`,
/// one after the other; `None` where the reports run out before the end.
/// Reports that follow the end are not looked at.
pub open spec fn ending<T>(state: WriteModel<T>, reports: Seq<Report>) -> Option<
    Result<(), csv::Error>,
>
    decreases reports.len(),
{
    if reports.len() == 0 {
        None
    } else {
        match next(state, reports.first().event, reports.first().io) {
            StepModel::Finished(result) => Some(result),
            StepModel::Continue(after, _) => ending(after, reports.drop_first()),
        }
    }
}

/// The documents that the file holds after the same run: those whose
/// encoding was asked for and reported done, in that order. `asked` is the
/// action whose outcome the first report gives.
pub open spec fn encoded<T>(
    state: WriteModel<T>,
    asked: WriteAction<T>,
    reports: Seq<Report>,
) -> Seq<T>
    decreases reports.len(),
{
    if reports.len() == 0 {
        Seq::empty()
    } else {
        let done = if reports.first().event is Done {
            in_flight(asked)
        } else {
            Seq::empty()
        };
        match next(state, reports.first().event, reports.first().io) {
            StepModel::Finished(_) => done,
            StepModel::Continue(after, action) => done + encoded(
                after,
                action,
                reports.drop_first(),
            ),
        }
    }
}

/// The document that an action hands to the codec, if it hands one.
pub open spec fn in_flight<T>(asked: WriteAction<T>) -> Seq<T> {
    match asked {
        WriteAction::Encode(document) => seq![document],
        _ => Seq::empty(),
    }
}

/// The reports that a rewrite in this stage needs at most before it is over,
/// beside one for each pending document.
pub open spec fn reports_left(stage: Stage) -> nat {
    match stage {
        Stage::Directory => 4,
        Stage::Opening => 3,
        Stage::Creating(_) => 2,
        Stage::Reopening => 1,
        Stage::Encoding => 1,
    }
}

proof fn lemma_run<T>(state: WriteModel<T>, asked: WriteAction<T>, reports: Seq<Report>)
    requires
        state.stage is Encoding <==> asked is Encode,
    ensures
        encoded(state, asked, reports).is_prefix_of(in_flight(asked) + state.pending),
        ending(state, reports) == Some(Ok::<(), csv::Error>(())) ==> encoded(state, asked, reports)
            == in_flight(asked) + state.pending,
        reports.len() >= reports_left(state.stage) + state.pending.len() ==> ending(
            state,
            reports,
        ) is Some,
    decreases reports.len(),
{
    let whole = in_flight(asked) + state.pending;
    if reports.len() == 0 {
        assert(Seq::<T>::empty().is_prefix_of(whole));
    } else {
        let done = if reports.first().event is Done {
            in_flight(asked)
        } else {
            Seq::empty()
        };
        match next(state, reports.first().event, reports.first().io) {
            StepModel::Finished(result) => {
                assert(done.is_prefix_of(whole));
                if result == Ok::<(), csv::Error>(()) {
                    assert(state.pending.len() == 0);
                    assert(done =~= whole);
                }
            },
            StepModel::Continue(after, action) => {
                lemma_run(after, action, reports.drop_first());
                let rest = encoded(after, action, reports.drop_first());
                assert(done + (in_flight(action) + after.pending) =~= whole);
                assert((done + rest).is_prefix_of(whole)) by {
                    assert(rest.is_prefix_of(in_flight(action) + after.pending));
                    assert((done + rest) =~= whole.subrange(0, (done + rest).len() as int));
                }
                if ending(state, reports) == Some(Ok::<(), csv::Error>(())) {
                    assert(done + rest =~= whole);
                }
            },
        }
    }
}

/// A rewrite that ends well has written the whole collection: the documents
/// whose encoding was asked for and done are the new contents, each once, in
/// their order. Nothing of them is missing and nothing else was asked for.
pub proof fn lemma_rewrite_is_whole<T>(documents: Seq<T>, reports: Seq<Report>)
    requires
        ending(opening_move(documents), reports) == Some(Ok::<(), csv::Error>(())),
    ensures
        encoded(opening_move(documents), WriteAction::EnsureDirectory, reports) == documents,
{
    lemma_run(opening_move(documents), WriteAction::EnsureDirectory, reports);
    assert(in_flight(WriteAction::<T>::EnsureDirectory) + documents =~= documents);
}

/// However a rewrite goes, what it has encoded is a front part of the new
/// contents: a rewrite that fails leaves documents out at the end, and
/// writes none twice or out of order.
pub proof fn lemma_rewrite_is_prefix<T>(documents: Seq<T>, reports: Seq<Report>)
    ensures
        encoded(opening_move(documents), WriteAction::EnsureDirectory, reports).is_prefix_of(
            documents,
        ),
{
    lemma_run(opening_move(documents), WriteAction::EnsureDirectory, reports);
    assert(in_flight(WriteAction::<T>::EnsureDirectory) + documents =~= documents);
}

/// A rewrite is over after four reports and one for each document, at the
/// latest.
pub proof fn lemma_rewrite_ends<T>(documents: Seq<T>, reports: Seq<Report>)
    requires
        reports.len() >= 4 + documents.len(),
    ensures
        ending(opening_move(documents), reports) is Some,
{
    lemma_run(opening_move(documents), WriteAction::EnsureDirectory, reports);
}

} // verus!
