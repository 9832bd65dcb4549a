use issue_delivery::store::TaskStore;
use issue_delivery::task::{DeliveryTask, StorageError};
use uuid::Uuid;

fn id(n: u128) -> Uuid {
    Uuid::from_u128(n)
}

fn task(n: u128, email: &str, retry_count: u16, not_before: u16) -> DeliveryTask {
    DeliveryTask::new(id(n), String::from(email), retry_count, not_before)
}

#[test]
fn new_queue_is_empty() {
    let mut store = TaskStore::new();
    assert_eq!(store.len(), 0);
    assert!(store.tasks().is_empty());
    assert!(store.claim_one().is_none());
}

#[test]
fn enqueued_tasks_are_kept_oldest_first() {
    let mut store = TaskStore::new();
    assert_eq!(store.enqueue(id(1), "a@example.com", 0, 0), Ok(()));
    assert_eq!(store.enqueue(id(2), "b@example.com", 3, 4), Ok(()));
    assert_eq!(store.len(), 2);
    assert_eq!(
        store.tasks(),
        vec![task(1, "a@example.com", 0, 0), task(2, "b@example.com", 3, 4)]
    );
}

#[test]
fn claim_hands_out_the_task_of_the_row() {
    let mut store = TaskStore::new();
    store.enqueue(id(1), "a@example.com", 2, 9).unwrap();
    let held = store.claim_one().unwrap();
    assert_eq!(*held.task(), task(1, "a@example.com", 2, 9));
    assert_eq!(store.len(), 1);
}

#[test]
fn of_two_claims_on_one_row_only_the_first_succeeds() {
    let mut store = TaskStore::new();
    store.enqueue(id(1), "a@example.com", 0, 0).unwrap();
    let first = store.claim_one();
    let second = store.claim_one();
    assert!(first.is_some());
    assert!(second.is_none());
    assert_eq!(store.len(), 1);
}

#[test]
fn two_workers_claim_different_rows() {
    let mut store = TaskStore::new();
    store.enqueue(id(1), "a@example.com", 0, 0).unwrap();
    store.enqueue(id(2), "b@example.com", 0, 0).unwrap();
    let first = store.claim_one().unwrap();
    let second = store.claim_one().unwrap();
    assert_eq!(first.task().recipient_email, "a@example.com");
    assert_eq!(second.task().recipient_email, "b@example.com");
    assert!(store.claim_one().is_none());
}

#[test]
fn released_claim_makes_the_row_claimable_again() {
    let mut store = TaskStore::new();
    store.enqueue(id(1), "a@example.com", 0, 0).unwrap();
    let held = store.claim_one().unwrap();
    store.release(held);
    assert_eq!(store.tasks(), vec![task(1, "a@example.com", 0, 0)]);
    let again = store.claim_one().unwrap();
    assert_eq!(*again.task(), task(1, "a@example.com", 0, 0));
}

#[test]
fn delete_removes_the_claimed_row_only() {
    let mut store = TaskStore::new();
    store.enqueue(id(1), "a@example.com", 0, 0).unwrap();
    store.enqueue(id(1), "a@example.com", 0, 0).unwrap();
    store.enqueue(id(2), "b@example.com", 1, 1).unwrap();
    let held = store.claim_one().unwrap();
    assert_eq!(store.delete(held, id(1), "a@example.com"), Ok(()));
    assert_eq!(
        store.tasks(),
        vec![task(1, "a@example.com", 0, 0), task(2, "b@example.com", 1, 1)]
    );
}

#[test]
fn deleted_row_is_never_claimed_again() {
    let mut store = TaskStore::new();
    store.enqueue(id(1), "a@example.com", 0, 0).unwrap();
    let held = store.claim_one().unwrap();
    assert_eq!(store.delete(held, id(1), "a@example.com"), Ok(()));
    assert!(store.claim_one().is_none());
    assert!(store.claim_one().is_none());
    store.enqueue(id(2), "b@example.com", 0, 0).unwrap();
    let next = store.claim_one().unwrap();
    assert_eq!(*next.task(), task(2, "b@example.com", 0, 0));
    assert!(store.claim_one().is_none());
}

#[test]
fn delete_under_another_issue_lets_the_row_go() {
    let mut store = TaskStore::new();
    store.enqueue(id(1), "a@example.com", 0, 0).unwrap();
    let held = store.claim_one().unwrap();
    assert_eq!(store.delete(held, id(2), "a@example.com"), Ok(()));
    assert_eq!(store.tasks(), vec![task(1, "a@example.com", 0, 0)]);
    assert!(store.claim_one().is_some());
}

#[test]
fn delete_under_another_address_lets_the_row_go() {
    let mut store = TaskStore::new();
    store.enqueue(id(1), "a@example.com", 0, 0).unwrap();
    let held = store.claim_one().unwrap();
    assert_eq!(store.delete(held, id(1), "b@example.com"), Ok(()));
    assert_eq!(store.len(), 1);
    assert!(store.claim_one().is_some());
}

#[test]
fn claim_of_another_queue_is_lost() {
    let mut store = TaskStore::new();
    store.enqueue(id(1), "a@example.com", 0, 0).unwrap();
    let mut other = TaskStore::new();
    other.enqueue(id(1), "a@example.com", 0, 0).unwrap();
    let held = store.claim_one().unwrap();
    assert_eq!(other.delete(held, id(1), "a@example.com"), Err(StorageError::ClaimLost));
    assert_eq!(other.len(), 1);
    assert!(other.claim_one().is_some());

    let mut empty = TaskStore::new();
    let held = other.claim_one();
    assert!(held.is_none());
    let mut third = TaskStore::new();
    third.enqueue(id(3), "c@example.com", 0, 0).unwrap();
    let held = third.claim_one().unwrap();
    assert_eq!(
        empty.requeue(held, task(3, "c@example.com", 1, 1)),
        Err(StorageError::ClaimLost)
    );
    assert_eq!(empty.len(), 0);
}

#[test]
fn requeue_replaces_the_claimed_row_by_the_successor() {
    let mut store = TaskStore::new();
    store.enqueue(id(1), "a@example.com", 2, 5).unwrap();
    store.enqueue(id(2), "b@example.com", 0, 0).unwrap();
    let held = store.claim_one().unwrap();
    let successor = held.task().retried().unwrap();
    assert_eq!(store.requeue(held, successor), Ok(()));
    assert_eq!(
        store.tasks(),
        vec![task(2, "b@example.com", 0, 0), task(1, "a@example.com", 3, 6)]
    );
    let next = store.claim_one().unwrap();
    assert_eq!(*next.task(), task(2, "b@example.com", 0, 0));
    let last = store.claim_one().unwrap();
    assert_eq!(*last.task(), task(1, "a@example.com", 3, 6));
}

#[test]
fn requeue_under_other_keys_keeps_the_row_and_adds_the_successor() {
    let mut store = TaskStore::new();
    store.enqueue(id(1), "a@example.com", 0, 0).unwrap();
    let held = store.claim_one().unwrap();
    assert_eq!(store.requeue(held, task(9, "z@example.com", 1, 1)), Ok(()));
    assert_eq!(
        store.tasks(),
        vec![task(1, "a@example.com", 0, 0), task(9, "z@example.com", 1, 1)]
    );
}
