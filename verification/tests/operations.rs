use csv_db::documents::{discard, select};
use csv_db::read::read_all;
use csv_db::{Database, ReadOutcome, StoreError};

#[derive(Debug, Clone, PartialEq)]
struct User {
    id: usize,
    first_name: String,
    last_name: String,
    age: u32,
}

fn user(id: usize, first_name: &str, age: u32) -> User {
    User { id, first_name: String::from(first_name), last_name: String::from("Last"), age }
}

fn io_failure(message: &str) -> csv::Error {
    csv::Error::from(std::io::Error::new(std::io::ErrorKind::Other, String::from(message)))
}

fn cancelled() -> tokio::task::JoinError {
    let runtime = tokio::runtime::Builder::new_current_thread().build().unwrap();
    let handle = runtime.spawn(std::future::pending::<()>());
    handle.abort();
    runtime.block_on(handle).unwrap_err()
}

fn db() -> Database<&'static str> {
    Database::new("data", None)
}

#[test]
fn round_trip_of_one_document() {
    let d = user(1, "First", 20);
    let written = db().insert(ReadOutcome::Unopened, d.clone()).unwrap();
    let found = db().find(ReadOutcome::Documents(written), |_| true).unwrap();
    assert_eq!(found, vec![d]);
}

#[test]
fn inserts_keep_their_order() {
    let d1 = user(1, "One", 20);
    let d2 = user(2, "Two", 30);
    let after_first = db().insert(ReadOutcome::Unopened, d1.clone()).unwrap();
    let after_second = db().insert(ReadOutcome::Documents(after_first), d2.clone()).unwrap();
    let found = db().find(ReadOutcome::Documents(after_second), |_| true).unwrap();
    assert_eq!(found, vec![d1, d2]);
}

#[test]
fn insert_appends_to_what_was_read() {
    let contents = db().insert(ReadOutcome::Documents(vec![5, 6, 7]), 1).unwrap();
    assert_eq!(contents, vec![5, 6, 7, 1]);
}

#[test]
fn insert_keeps_duplicates() {
    let d = user(1, "Same", 20);
    let once = db().insert(ReadOutcome::Unopened, d.clone()).unwrap();
    let twice = db().insert(ReadOutcome::Documents(once), d.clone()).unwrap();
    assert_eq!(twice, vec![d.clone(), d]);
}

#[test]
fn delete_removes_the_matching_document_only() {
    let (a, b, c) = (user(1, "A", 10), user(2, "B", 20), user(3, "C", 30));
    let stored = vec![a.clone(), b.clone(), c.clone()];
    let left = db().delete(ReadOutcome::Documents(stored), |u: &&User| u.id == 2).unwrap();
    assert_eq!(left, vec![a.clone(), c.clone()]);
    let found = db().find(ReadOutcome::Documents(left), |_| true).unwrap();
    assert_eq!(found, vec![a, c]);
}

#[test]
fn delete_that_matches_nothing_changes_nothing() {
    let stored = vec![user(1, "A", 10), user(2, "B", 20), user(3, "C", 30)];
    let left = db().delete(ReadOutcome::Documents(stored.clone()), |u: &&User| u.id == 9).unwrap();
    assert_eq!(left, stored);
}

#[test]
fn delete_that_matches_everything_empties_the_collection() {
    let stored = vec![user(1, "A", 10), user(2, "B", 20)];
    let left = db().delete(ReadOutcome::Documents(stored), |_: &&User| true).unwrap();
    assert_eq!(left, Vec::<User>::new());
}

#[test]
fn delete_removes_every_match() {
    let left = db().delete(ReadOutcome::Documents(vec![1, 2, 3, 4, 5, 6]), |n: &&u32| **n % 2 == 0);
    assert_eq!(left.unwrap(), vec![1, 3, 5]);
}

#[test]
fn delete_on_a_missing_collection_writes_an_empty_one() {
    let left = db().delete(ReadOutcome::<u32>::Unopened, |_| true).unwrap();
    assert_eq!(left, Vec::<u32>::new());
}

#[test]
fn update_deletes_then_appends() {
    let (a, b) = (user(1, "A", 20), user(2, "B", 30));
    let a2 = user(1, "A", 21);
    let stored = vec![a, b.clone()];
    let contents =
        db().update(ReadOutcome::Documents(stored), a2.clone(), |u: &&User| u.id == 1).unwrap();
    assert_eq!(contents, vec![b.clone(), a2.clone()]);
    assert_ne!(contents, vec![a2, b]);
}

#[test]
fn update_with_several_matches_appends_once() {
    let contents =
        db().update(ReadOutcome::Documents(vec![1, 2, 1, 3, 1]), 9, |n: &&u32| **n == 1).unwrap();
    assert_eq!(contents, vec![2, 3, 9]);
}

#[test]
fn update_without_a_match_appends() {
    let contents =
        db().update(ReadOutcome::Documents(vec![1, 2]), 9, |n: &&u32| **n == 7).unwrap();
    assert_eq!(contents, vec![1, 2, 9]);
}

#[test]
fn update_on_a_missing_collection_holds_the_document() {
    let contents = db().update(ReadOutcome::Unopened, 9, |_: &&u32| true).unwrap();
    assert_eq!(contents, vec![9]);
}

#[test]
fn find_on_a_collection_never_written_is_empty() {
    let found = db().find(ReadOutcome::<User>::Unopened, |_| true);
    assert_eq!(found.unwrap(), Vec::<User>::new());
}

#[test]
fn find_twice_returns_the_same() {
    let stored = vec![user(1, "A", 17), user(2, "B", 18), user(3, "C", 40)];
    let once = db().find(ReadOutcome::Documents(stored.clone()), |u: &User| u.age >= 18).unwrap();
    let again = db().find(ReadOutcome::Documents(stored), |u: &User| u.age >= 18).unwrap();
    assert_eq!(once, again);
    assert_eq!(once, vec![user(2, "B", 18), user(3, "C", 40)]);
}

#[test]
fn find_keeps_the_order_of_the_collection() {
    let found = db().find(ReadOutcome::Documents(vec![9, 1, 8, 2, 7, 3]), |n: &u32| *n > 2);
    assert_eq!(found.unwrap(), vec![9, 8, 7, 3]);
}

#[test]
fn find_that_accepts_nothing_is_empty() {
    let found = db().find(ReadOutcome::Documents(vec![1, 2, 3]), |_| false);
    assert_eq!(found.unwrap(), Vec::<u32>::new());
}

#[test]
fn find_asks_once_for_each_document_in_order() {
    let mut asked = Vec::new();
    let found = db().find(ReadOutcome::Documents(vec![4, 5, 6]), |n: &u32| {
        asked.push(*n);
        *n != 5
    });
    assert_eq!(found.unwrap(), vec![4, 6]);
    assert_eq!(asked, vec![4, 5, 6]);
}

#[test]
fn delete_asks_once_for_each_document_in_order() {
    let mut asked = Vec::new();
    let left = db().delete(ReadOutcome::Documents(vec![4, 5, 6]), |n: &&u32| {
        asked.push(**n);
        **n == 5
    });
    assert_eq!(left.unwrap(), vec![4, 6]);
    assert_eq!(asked, vec![4, 5, 6]);
}

#[test]
fn two_inserts_from_one_snapshot_lose_the_earlier_one() {
    let (d1, d2) = (user(1, "One", 20), user(2, "Two", 30));
    // both operations read before either writes
    let first = db().insert(ReadOutcome::Unopened, d1.clone()).unwrap();
    let second = db().insert(ReadOutcome::Unopened, d2.clone()).unwrap();
    // the file holds what was written last
    let mut file = first;
    assert_eq!(file, vec![d1.clone()]);
    file = second;
    let found = db().find(ReadOutcome::Documents(file), |_| true).unwrap();
    assert_eq!(found, vec![d2]);
    assert!(!found.contains(&d1));
}

#[test]
fn a_failed_read_fails_every_operation() {
    let found = db().find(ReadOutcome::<u32>::Failed(io_failure("find")), |_| true);
    assert!(matches!(found, Err(StoreError::Read(ref e)) if e.to_string() == "find"));
    let inserted = db().insert(ReadOutcome::Failed(io_failure("insert")), 1u32);
    assert!(matches!(inserted, Err(StoreError::Read(ref e)) if e.to_string() == "insert"));
    let deleted = db().delete(ReadOutcome::<u32>::Failed(io_failure("delete")), |_| true);
    assert!(matches!(deleted, Err(StoreError::Read(ref e)) if e.to_string() == "delete"));
    let updated = db().update(ReadOutcome::Failed(io_failure("update")), 1u32, |_| true);
    assert!(matches!(updated, Err(StoreError::Read(ref e)) if e.to_string() == "update"));
}

#[test]
fn an_aborted_read_fails_every_operation_as_a_worker_failure() {
    let found = db().find(ReadOutcome::<u32>::Aborted(cancelled()), |_| true);
    assert!(matches!(found, Err(StoreError::Worker(ref e)) if e.is_cancelled()));
    let inserted = db().insert(ReadOutcome::Aborted(cancelled()), 1u32);
    assert!(matches!(inserted, Err(StoreError::Worker(_))));
    let deleted = db().delete(ReadOutcome::<u32>::Aborted(cancelled()), |_| true);
    assert!(matches!(deleted, Err(StoreError::Worker(_))));
    let updated = db().update(ReadOutcome::Aborted(cancelled()), 1u32, |_| true);
    assert!(matches!(updated, Err(StoreError::Worker(_))));
}

#[test]
fn read_all_of_each_outcome() {
    assert_eq!(read_all(ReadOutcome::<u32>::Unopened).unwrap(), Vec::<u32>::new());
    assert_eq!(read_all(ReadOutcome::Documents(vec![3, 1, 2])).unwrap(), vec![3, 1, 2]);
    assert_eq!(read_all(ReadOutcome::Documents(Vec::<u32>::new())).unwrap(), Vec::<u32>::new());
    let failed = read_all(ReadOutcome::<u32>::Failed(io_failure("broken")));
    assert!(matches!(failed, Err(StoreError::Read(ref e)) if e.to_string() == "broken"));
    let aborted = read_all(ReadOutcome::<u32>::Aborted(cancelled()));
    assert!(matches!(aborted, Err(StoreError::Worker(_))));
}

#[test]
fn select_keeps_what_is_accepted() {
    assert_eq!(select(vec![1, 2, 3, 4], |n: &u32| *n % 2 == 1), vec![1, 3]);
    assert_eq!(select(Vec::<u32>::new(), |_| true), Vec::<u32>::new());
    assert_eq!(select(vec!["a", "b"], |_| true), vec!["a", "b"]);
}

#[test]
fn discard_keeps_what_is_not_matched() {
    assert_eq!(discard(vec![1, 2, 3, 4], |n: &&u32| **n % 2 == 1), vec![2, 4]);
    assert_eq!(discard(Vec::<u32>::new(), |_| true), Vec::<u32>::new());
    assert_eq!(discard(vec!["a", "b"], |_| false), vec!["a", "b"]);
}
