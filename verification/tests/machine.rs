use issue_delivery::attempt::{Action, Attempt, Event, Transition};
use issue_delivery::task::{
    AttemptError, DeliveryTask, ExecutionOutcome, Issue, Message, StorageError,
};
use uuid::Uuid;

fn id() -> Uuid {
    Uuid::from_u128(42)
}

fn task(email: &str, retry_count: u16, not_before: u16) -> DeliveryTask {
    DeliveryTask::new(id(), String::from(email), retry_count, not_before)
}

fn issue() -> Issue {
    Issue {
        title: String::from("t"),
        html_content: String::from("<b>h</b>"),
        text_content: String::from("h"),
    }
}

fn sending(email: &str, retry_count: u16, not_before: u16) -> Attempt {
    let (attempt, _) = Attempt::start(5);
    let (attempt, _) = attempt.step(Event::Claimed(task(email, retry_count, not_before)));
    let (attempt, _) = attempt.step(Event::Elapsed);
    let (attempt, action) = attempt.step(Event::IssueFetched(issue()));
    assert!(matches!(action, Action::Send { .. }));
    attempt
}

#[test]
fn attempt_starts_by_asking_for_a_claim() {
    let (attempt, action) = Attempt::start(5);
    assert_eq!(action, Action::Claim);
    assert!(!attempt.is_finished());
}

#[test]
fn empty_queue_finishes_the_attempt() {
    let (attempt, _) = Attempt::start(5);
    let (attempt, action) = attempt.step(Event::QueueEmpty);
    assert_eq!(action, Action::Finish { result: Ok(ExecutionOutcome::EmptyQueue) });
    assert!(attempt.is_finished());
}

#[test]
fn failed_claim_finishes_with_the_storage_error() {
    let (attempt, _) = Attempt::start(5);
    let (attempt, action) = attempt.step(Event::StorageFailed(StorageError::Unavailable));
    assert_eq!(
        action,
        Action::Finish { result: Err(AttemptError::Storage(StorageError::Unavailable)) }
    );
    assert!(attempt.is_finished());
}

#[test]
fn claimed_task_is_waited_for() {
    let (attempt, _) = Attempt::start(5);
    let (_, action) = attempt.step(Event::Claimed(task("user@example.com", 2, 7)));
    assert_eq!(action, Action::Sleep { seconds: 7 });
}

#[test]
fn exhausted_task_is_deleted_at_once() {
    let (attempt, _) = Attempt::start(5);
    let (attempt, action) = attempt.step(Event::Claimed(task("user@example.com", 5, 3)));
    assert_eq!(
        action,
        Action::Delete { issue_id: id(), recipient_email: String::from("user@example.com") }
    );
    let (attempt, action) = attempt.step(Event::Settled);
    assert_eq!(action, Action::Finish { result: Err(AttemptError::RetriesExhausted) });
    assert!(attempt.is_finished());
}

#[test]
fn well_formed_recipient_has_the_issue_fetched() {
    let (attempt, _) = Attempt::start(5);
    let (attempt, _) = attempt.step(Event::Claimed(task("user@example.com", 0, 0)));
    let (_, action) = attempt.step(Event::Elapsed);
    assert_eq!(action, Action::FetchIssue { issue_id: id() });
}

#[test]
fn malformed_recipient_is_deleted_after_the_wait() {
    let (attempt, _) = Attempt::start(5);
    let (attempt, action) = attempt.step(Event::Claimed(task("not-an-email", 0, 4)));
    assert_eq!(action, Action::Sleep { seconds: 4 });
    let (attempt, action) = attempt.step(Event::Elapsed);
    assert_eq!(
        action,
        Action::Delete { issue_id: id(), recipient_email: String::from("not-an-email") }
    );
    let (_, action) = attempt.step(Event::Settled);
    assert_eq!(action, Action::Finish { result: Ok(ExecutionOutcome::TaskCompleted) });
}

#[test]
fn fetched_issue_is_sent_to_the_recipient() {
    let (attempt, _) = Attempt::start(5);
    let (attempt, _) = attempt.step(Event::Claimed(task("user@example.com", 0, 0)));
    let (attempt, _) = attempt.step(Event::Elapsed);
    let (_, action) = attempt.step(Event::IssueFetched(issue()));
    assert_eq!(
        action,
        Action::Send {
            message: Message {
                recipient: String::from("user@example.com"),
                subject: String::from("t"),
                html_body: String::from("<b>h</b>"),
                text_body: String::from("h"),
            }
        }
    );
}

#[test]
fn missing_issue_abandons_the_claim() {
    let (attempt, _) = Attempt::start(5);
    let (attempt, _) = attempt.step(Event::Claimed(task("user@example.com", 0, 0)));
    let (attempt, _) = attempt.step(Event::Elapsed);
    let (attempt, action) = attempt.step(Event::StorageFailed(StorageError::IssueNotFound));
    assert_eq!(
        action,
        Action::Abandon { error: AttemptError::Storage(StorageError::IssueNotFound) }
    );
    assert!(attempt.is_finished());
}

#[test]
fn sent_message_has_the_task_deleted() {
    let attempt = sending("user@example.com", 0, 0);
    let (attempt, action) = attempt.step(Event::Sent);
    assert_eq!(
        action,
        Action::Delete { issue_id: id(), recipient_email: String::from("user@example.com") }
    );
    let (_, action) = attempt.step(Event::Settled);
    assert_eq!(action, Action::Finish { result: Ok(ExecutionOutcome::TaskCompleted) });
}

#[test]
fn failed_send_asks_for_the_successor() {
    let attempt = sending("user@example.com", 2, 5);
    let (attempt, action) = attempt.step(Event::SendFailed);
    assert_eq!(action, Action::Requeue { successor: task("user@example.com", 3, 6) });
    let (_, action) = attempt.step(Event::Settled);
    assert_eq!(action, Action::Finish { result: Ok(ExecutionOutcome::TaskCompleted) });
}

#[test]
fn failed_send_at_the_last_retry_still_asks_for_the_successor() {
    let attempt = sending("user@example.com", 4, 4);
    let (_, action) = attempt.step(Event::SendFailed);
    assert_eq!(action, Action::Requeue { successor: task("user@example.com", 5, 5) });
}

#[test]
fn failed_send_with_a_full_counter_abandons_the_claim() {
    let attempt = sending("user@example.com", 0, u16::MAX);
    let (attempt, action) = attempt.step(Event::SendFailed);
    assert_eq!(
        action,
        Action::Abandon { error: AttemptError::Storage(StorageError::OutOfRange) }
    );
    assert!(attempt.is_finished());
    let attempt = sending("user@example.com", u16::MAX, 0);
    let (_, action) = attempt.step(Event::SendFailed);
    assert_eq!(
        action,
        Action::Abandon { error: AttemptError::Storage(StorageError::OutOfRange) }
    );
}

#[test]
fn failed_settlement_finishes_with_the_storage_error() {
    let attempt = sending("user@example.com", 0, 0);
    let (attempt, _) = attempt.step(Event::Sent);
    let (attempt, action) = attempt.step(Event::StorageFailed(StorageError::ClaimLost));
    assert_eq!(
        action,
        Action::Finish { result: Err(AttemptError::Storage(StorageError::ClaimLost)) }
    );
    assert!(attempt.is_finished());
}

#[test]
fn report_out_of_turn_abandons_the_attempt() {
    let (attempt, _) = Attempt::start(5);
    let (attempt, action) = attempt.step(Event::Sent);
    assert_eq!(action, Action::Abandon { error: AttemptError::OutOfTurn });
    assert!(attempt.is_finished());
    let (attempt, action) = attempt.step(Event::QueueEmpty);
    assert_eq!(action, Action::Abandon { error: AttemptError::OutOfTurn });
    assert!(attempt.is_finished());

    let (attempt, _) = Attempt::start(5);
    let (attempt, _) = attempt.step(Event::Claimed(task("user@example.com", 0, 0)));
    let (_, action) = attempt.step(Event::Settled);
    assert_eq!(action, Action::Abandon { error: AttemptError::OutOfTurn });
}

#[test]
fn attempt_tells_the_ending_it_is_settling() {
    let (attempt, _) = Attempt::start(5);
    assert_eq!(attempt.settling(), None);
    let (attempt, _) = attempt.step(Event::Claimed(task("user@example.com", 5, 0)));
    assert_eq!(attempt.settling(), Some(Transition::Exhausted));
    let (attempt, _) = attempt.step(Event::Settled);
    assert_eq!(attempt.settling(), None);

    let (attempt, _) = Attempt::start(5);
    let (attempt, _) = attempt.step(Event::Claimed(task("nobody", 0, 0)));
    let (attempt, _) = attempt.step(Event::Elapsed);
    assert_eq!(attempt.settling(), Some(Transition::InvalidRecipient));

    let (attempt, _) = sending("user@example.com", 0, 0).step(Event::Sent);
    assert_eq!(attempt.settling(), Some(Transition::Delivered));
    let (attempt, _) = sending("user@example.com", 0, 0).step(Event::SendFailed);
    assert_eq!(attempt.settling(), Some(Transition::Requeued));
}

#[test]
fn failures_have_their_sentences() {
    assert_eq!(
        AttemptError::RetriesExhausted.message(),
        "Failed to deliver issue to a confirmed subscriber. Skipping this subscriber."
    );
    assert_eq!(
        AttemptError::Storage(StorageError::IssueNotFound).message(),
        "The issue to deliver was not found."
    );
    assert_eq!(
        AttemptError::Storage(StorageError::ClaimLost).message(),
        "The claim on the task was lost."
    );
    assert_eq!(
        AttemptError::Storage(StorageError::IssueExists).message(),
        "The issue is published already."
    );
    assert_eq!(
        AttemptError::Storage(StorageError::OutOfRange).message(),
        "The retry counters of the task cannot grow any further."
    );
    assert_eq!(
        AttemptError::Storage(StorageError::QueueFull).message(),
        "The queue cannot take another task."
    );
    assert_eq!(
        AttemptError::Storage(StorageError::Unavailable).message(),
        "The storage could not be reached."
    );
    assert_eq!(AttemptError::OutOfTurn.message(), "The delivery attempt was driven out of turn.");
}

#[test]
fn transitions_report_their_results() {
    assert_eq!(Transition::Exhausted.result(), Err(AttemptError::RetriesExhausted));
    assert_eq!(Transition::InvalidRecipient.result(), Ok(ExecutionOutcome::TaskCompleted));
    assert_eq!(Transition::Delivered.result(), Ok(ExecutionOutcome::TaskCompleted));
    assert_eq!(Transition::Requeued.result(), Ok(ExecutionOutcome::TaskCompleted));
}

#[test]
fn task_counts_its_retries() {
    let first = task("user@example.com", 0, 0);
    assert!(!first.is_exhausted(5));
    let second = first.retried().unwrap();
    assert_eq!(second, task("user@example.com", 1, 1));
    assert!(task("user@example.com", 5, 9).is_exhausted(5));
    assert!(!task("user@example.com", 6, 9).is_exhausted(5));
    assert_eq!(task("a@b.c", u16::MAX, 0).retried(), None);
    assert_eq!(task("a@b.c", 0, u16::MAX).retried(), None);
    assert_eq!(
        task("a@b.c", u16::MAX - 1, u16::MAX - 1).retried(),
        Some(task("a@b.c", u16::MAX, u16::MAX))
    );
    assert_eq!(first.clone(), first);
}
