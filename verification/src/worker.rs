//! The worker: one pass over the queue, and the pause that follows it.

use crate::attempt::{Action, ActionView, Attempt, AttemptView, Event, PhaseView, Transition};
use crate::email::well_formed;
use crate::issues::IssueRepository;
use crate::store::{ClaimView, ClaimedTask, QueueView, RowView, TaskStore};
use crate::task::{
    AttemptError, ExecutionOutcome, IssueView, Message, MessageView, StorageError, TaskView,
};
use uuid::Uuid;
use vstd::prelude::*;

verus! {

/// The seconds a worker rests after it found the queue empty.
pub const IDLE_PAUSE_SECS: u64 = 10;

/// The seconds a worker rests after an attempt that failed.
pub const ERROR_PAUSE_SECS: u64 = 1;

/// The seconds a worker rests after an attempt with the given result: none
/// after a completed task, the idle pause after an empty queue, the error
/// pause after any failure, whatever it was.
pub open spec fn pause_for<E>(result: Result<ExecutionOutcome, E>) -> nat {
    match result {
        Ok(ExecutionOutcome::TaskCompleted) => 0,
        Ok(ExecutionOutcome::EmptyQueue) => IDLE_PAUSE_SECS as nat,
        Err(_) => ERROR_PAUSE_SECS as nat,
    }
}

/// The seconds to rest before the next attempt.
pub fn pause_after<E>(result: &Result<ExecutionOutcome, E>) -> (seconds: u64)
    ensures
        seconds == pause_for(*result),
{
    match result {
        Ok(ExecutionOutcome::TaskCompleted) => 0,
        Ok(ExecutionOutcome::EmptyQueue) => IDLE_PAUSE_SECS,
        Err(_) => ERROR_PAUSE_SECS,
    }
}

/// What one attempt did besides changing the queue.
#[derive(Debug, PartialEq, Eq)]
pub struct AttemptReport {
    /// How the attempt ended.
    pub result: Result<ExecutionOutcome, AttemptError>,
    /// The seconds waited before the recipient was looked at, if it came to that.
    pub waited: Option<u16>,
    /// The message handed to the transport, if it came to that.
    pub sent: Option<Message>,
}

/// A report as a mathematical value.
pub struct ReportView {
    pub result: Result<ExecutionOutcome, AttemptError>,
    pub waited: Option<nat>,
    pub sent: Option<MessageView>,
}

impl View for AttemptReport {
    type V = ReportView;

    open spec fn view(&self) -> ReportView {
        ReportView {
            result: self.result,
            waited: match self.waited {
                Some(seconds) => Some(seconds as nat),
                None => None,
            },
            sent: match self.sent {
                Some(message) => Some(message@),
                None => None,
            },
        }
    }
}

/// One attempt as a mathematical value: the queue it leaves and its report.
pub struct RunView {
    pub queue: QueueView,
    pub report: ReportView,
}

/// What one attempt makes of a queue, given the published issues and whether
/// the transport accepts a message.
///
/// With no unheld row the queue stays as it is. Otherwise the oldest unheld
/// row is claimed. If its task has used up its retries the row is deleted and
/// the attempt fails. Else the task's wait is observed. A malformed recipient
/// has the row deleted. A missing issue has the claim let go and the attempt
/// fail. Else the message is handed over: if the transport accepts it the row
/// is deleted; if not, the task's successor takes the row's place, or the
/// claim is let go with a failure where the successor cannot be stored.
pub open spec fn run(
    queue: QueueView,
    issues: Map<Uuid, IssueView>,
    transport_accepts: bool,
    max_retries: nat,
) -> RunView {
    if !queue.has_pending() {
        RunView {
            queue,
            report: ReportView {
                result: Ok(ExecutionOutcome::EmptyQueue),
                waited: None,
                sent: None,
            },
        }
    } else {
        let claim = queue.next_claim();
        let task = claim.task;
        let held = queue.claim();
        let deleted = held.delete(claim.row_id, task.issue_id, task.recipient_email);
        let released = held.release(claim.row_id);
        let waited = Some(task.not_before);
        if task.is_exhausted(max_retries) {
            RunView {
                queue: deleted,
                report: ReportView {
                    result: Err(AttemptError::RetriesExhausted),
                    waited: None,
                    sent: None,
                },
            }
        } else if !well_formed(task.recipient_email) {
            RunView {
                queue: deleted,
                report: ReportView {
                    result: Ok(ExecutionOutcome::TaskCompleted),
                    waited,
                    sent: None,
                },
            }
        } else if !issues.contains_key(task.issue_id) {
            RunView {
                queue: released,
                report: ReportView {
                    result: Err(AttemptError::Storage(StorageError::IssueNotFound)),
                    waited,
                    sent: None,
                },
            }
        } else {
            let sent = Some(MessageView::carrying(task.recipient_email, issues[task.issue_id]));
            if transport_accepts {
                RunView {
                    queue: deleted,
                    report: ReportView { result: Ok(ExecutionOutcome::TaskCompleted), waited, sent },
                }
            } else if !task.retried().representable() {
                RunView {
                    queue: released,
                    report: ReportView {
                        result: Err(AttemptError::Storage(StorageError::OutOfRange)),
                        waited,
                        sent,
                    },
                }
            } else {
                RunView {
                    queue: held.requeue(claim.row_id, task.retried()),
                    report: ReportView {
                        result: if held.has_room() {
                            Ok(ExecutionOutcome::TaskCompleted)
                        } else {
                            Err(AttemptError::Storage(StorageError::QueueFull))
                        },
                        waited,
                        sent,
                    },
                }
            }
        }
    }
}

/// A task with retries left whose delivery the transport refuses is replaced:
/// its row leaves the queue and exactly one row is added, the youngest, for
/// the same issue and recipient with one more retry on the count and one more
/// second to wait. This holds where the wait has room for one more second and
/// the queue has an identifier left.
pub proof fn lemma_failed_delivery_is_requeued(
    queue: QueueView,
    issues: Map<Uuid, IssueView>,
    max_retries: nat,
)
    requires
        queue.wf(),
        queue.has_pending(),
        queue.next_claim().task.retry_count < max_retries <= u16::MAX,
        well_formed(queue.next_claim().task.recipient_email),
        issues.contains_key(queue.next_claim().task.issue_id),
        queue.next_claim().task.not_before < u16::MAX,
        queue.has_room(),
    ensures
        ({
            let mine = queue.next_claim();
            let after = run(queue, issues, false, max_retries);
            &&& after.report.result == Ok::<ExecutionOutcome, AttemptError>(
                ExecutionOutcome::TaskCompleted,
            )
            &&& after.queue.gone(mine.row_id)
            &&& after.queue.rows == queue.rows.remove(queue.first_pending()).push(
                RowView {
                    id: queue.next_id,
                    claimed: false,
                    task: TaskView {
                        retry_count: mine.task.retry_count + 1,
                        not_before: mine.task.not_before + 1,
                        ..mine.task
                    },
                },
            )
        }),
{
    queue.lemma_claim_holds();
    queue.lemma_claim_then_requeue(queue.next_claim().task.retried());
}

/// A task that has used up its retries is deleted and reported as given up,
/// whatever its recipient looks like: its row leaves the queue, no row is
/// added, and the transport is not asked.
pub proof fn lemma_exhausted_task_is_deleted(
    queue: QueueView,
    issues: Map<Uuid, IssueView>,
    transport_accepts: bool,
    max_retries: nat,
)
    requires
        queue.wf(),
        queue.has_pending(),
        queue.next_claim().task.retry_count == max_retries,
    ensures
        ({
            let after = run(queue, issues, transport_accepts, max_retries);
            &&& after.report.result == Err::<ExecutionOutcome, AttemptError>(
                AttemptError::RetriesExhausted,
            )
            &&& after.report.sent is None
            &&& after.queue.gone(queue.next_claim().row_id)
            &&& after.queue.rows == queue.rows.remove(queue.first_pending())
            &&& after.queue.next_id == queue.next_id
        }),
{
    queue.lemma_claim_then_delete();
}

/// A task with a malformed recipient is deleted: its row leaves the queue, no
/// row is added, and the transport is not asked. The attempt counts as
/// completed unless the task had used up its retries as well.
pub proof fn lemma_malformed_recipient_is_deleted(
    queue: QueueView,
    issues: Map<Uuid, IssueView>,
    transport_accepts: bool,
    max_retries: nat,
)
    requires
        queue.wf(),
        queue.has_pending(),
        !well_formed(queue.next_claim().task.recipient_email),
    ensures
        ({
            let after = run(queue, issues, transport_accepts, max_retries);
            &&& after.report.result == (if queue.next_claim().task.is_exhausted(max_retries) {
                Err::<ExecutionOutcome, AttemptError>(AttemptError::RetriesExhausted)
            } else {
                Ok(ExecutionOutcome::TaskCompleted)
            })
            &&& after.report.sent is None
            &&& after.queue.gone(queue.next_claim().row_id)
            &&& after.queue.rows == queue.rows.remove(queue.first_pending())
            &&& after.queue.next_id == queue.next_id
        }),
{
    queue.lemma_claim_then_delete();
}

/// A task whose message the transport accepts is deleted: its row leaves the
/// queue, no row is added, and the attempt counts as completed.
pub proof fn lemma_delivered_task_is_deleted(
    queue: QueueView,
    issues: Map<Uuid, IssueView>,
    max_retries: nat,
)
    requires
        queue.wf(),
        queue.has_pending(),
        !queue.next_claim().task.is_exhausted(max_retries),
        well_formed(queue.next_claim().task.recipient_email),
        issues.contains_key(queue.next_claim().task.issue_id),
    ensures
        ({
            let mine = queue.next_claim();
            let after = run(queue, issues, true, max_retries);
            &&& after.report.result == Ok::<ExecutionOutcome, AttemptError>(
                ExecutionOutcome::TaskCompleted,
            )
            &&& after.report.sent == Some(
                MessageView::carrying(mine.task.recipient_email, issues[mine.task.issue_id]),
            )
            &&& after.queue.gone(mine.row_id)
            &&& after.queue.rows == queue.rows.remove(queue.first_pending())
            &&& after.queue.next_id == queue.next_id
        }),
{
    queue.lemma_claim_then_delete();
}

/// An attempt whose claim is let go, because the issue is missing or the
/// successor cannot be stored, leaves the queue as it found it: the task can
/// be claimed again.
pub proof fn lemma_failed_attempt_keeps_the_task(
    queue: QueueView,
    issues: Map<Uuid, IssueView>,
    transport_accepts: bool,
    max_retries: nat,
)
    requires
        queue.wf(),
    ensures
        ({
            let after = run(queue, issues, transport_accepts, max_retries);
            after.report.result matches Err(AttemptError::Storage(_)) ==> after.queue == queue
        }),
{
    if queue.has_pending() {
        queue.lemma_claim_holds();
        queue.lemma_claim_then_release();
    }
}

/// No attempt lets the queue grow: it removes a row, replaces one, or leaves
/// the rows as they are, so that retries pile up no copies of a task.
pub proof fn lemma_attempt_never_grows_the_queue(
    queue: QueueView,
    issues: Map<Uuid, IssueView>,
    transport_accepts: bool,
    max_retries: nat,
)
    requires
        queue.wf(),
    ensures
        ({
            let after = run(queue, issues, transport_accepts, max_retries);
            &&& after.queue.wf()
            &&& after.queue.rows.len() <= queue.rows.len()
            &&& after.queue.next_id <= queue.next_id + 1
        }),
{
    if queue.has_pending() {
        let mine = queue.next_claim();
        queue.lemma_claim_holds();
        queue.lemma_claim_then_delete();
        queue.lemma_claim_then_release();
        if queue.has_room() {
            queue.lemma_claim_then_requeue(mine.task.retried());
        }
    }
}

/// The queue after `attempts` attempts in a row during which the transport
/// refuses every message.
pub open spec fn after_refusals(
    queue: QueueView,
    issues: Map<Uuid, IssueView>,
    max_retries: nat,
    attempts: nat,
) -> QueueView
    decreases attempts,
{
    if attempts == 0 {
        queue
    } else {
        after_refusals(
            run(queue, issues, false, max_retries).queue,
            issues,
            max_retries,
            (attempts - 1) as nat,
        )
    }
}

/// Retries are bounded: a task that the transport never accepts is tried
/// once for every retry it has left and is then given up, which leaves the
/// queue empty. This holds where the task's wait and the queue's identifiers
/// have room for the retries that are left.
pub proof fn lemma_retries_are_bounded(
    queue: QueueView,
    issues: Map<Uuid, IssueView>,
    max_retries: nat,
)
    requires
        queue.wf(),
        queue.rows.len() == 1,
        !queue.rows[0].claimed,
        queue.rows[0].task.retry_count <= max_retries <= u16::MAX,
        well_formed(queue.rows[0].task.recipient_email),
        issues.contains_key(queue.rows[0].task.issue_id),
        queue.rows[0].task.not_before + (max_retries - queue.rows[0].task.retry_count) <= u16::MAX,
        queue.next_id + (max_retries - queue.rows[0].task.retry_count) <= u64::MAX,
    ensures
        after_refusals(
            queue,
            issues,
            max_retries,
            (max_retries - queue.rows[0].task.retry_count + 1) as nat,
        ).rows.len() == 0,
    decreases max_retries - queue.rows[0].task.retry_count,
{
    let task = queue.rows[0].task;
    let after = run(queue, issues, false, max_retries).queue;
    queue.lemma_single_row_is_claimed_once();
    queue.lemma_first_pending_is(0);
    if task.retry_count == max_retries {
        lemma_exhausted_task_is_deleted(queue, issues, false, max_retries);
        assert(after_refusals(after, issues, max_retries, 0) == after);
    } else {
        lemma_failed_delivery_is_requeued(queue, issues, max_retries);
        queue.lemma_claim_then_requeue(task.retried());
        assert(after.rows[0].task == task.retried());
        lemma_retries_are_bounded(after, issues, max_retries);
    }
}

/// An attempt on a queue with no unheld row claims nothing, changes nothing,
/// and has the worker rest for the idle pause.
pub proof fn lemma_empty_queue_idles(
    queue: QueueView,
    issues: Map<Uuid, IssueView>,
    transport_accepts: bool,
    max_retries: nat,
)
    requires
        !queue.has_pending(),
    ensures
        ({
            let after = run(queue, issues, transport_accepts, max_retries);
            &&& after.queue == queue
            &&& after.report.result == Ok::<ExecutionOutcome, AttemptError>(
                ExecutionOutcome::EmptyQueue,
            )
            &&& pause_for(after.report.result) == IDLE_PAUSE_SECS
        }),
{
}

/// The queue after the claim on row `id` is settled as `action` asks.
spec fn settled(held: QueueView, id: nat, action: ActionView) -> QueueView {
    match action {
        ActionView::Delete { issue_id, recipient_email } => held.delete(id, issue_id, recipient_email),
        ActionView::Requeue { successor } => held.requeue(id, successor),
        _ => held,
    }
}

/// What an attempt reports after it settled its claim as `action` asks.
spec fn settled_result(held: QueueView, action: ActionView, transition: Transition) -> Result<
    ExecutionOutcome,
    AttemptError,
> {
    if action is Requeue && !held.has_room() {
        Err(AttemptError::Storage(StorageError::QueueFull))
    } else {
        transition.report()
    }
}

/// The attempt, its pending action and what was done so far are those of an
/// attempt on `queue0` that is on its way to `run(queue0, ..)`.
spec fn on_track(
    attempt: AttemptView,
    action: ActionView,
    queue: QueueView,
    claim: Option<ClaimView>,
    waited: Option<nat>,
    sent: Option<MessageView>,
    queue0: QueueView,
    issues: Map<Uuid, IssueView>,
    transport_accepts: bool,
    max_retries: nat,
) -> bool {
    let target = run(queue0, issues, transport_accepts, max_retries);
    let mine = queue0.next_claim();
    let task = mine.task;
    let held = queue0.claim();
    let claimed = {
        &&& queue0.has_pending()
        &&& queue == held
        &&& claim == Some(mine)
    };
    &&& attempt.max_retries == max_retries
    &&& match attempt.phase {
        PhaseView::Claiming => {
            &&& action == ActionView::Claim
            &&& queue == queue0
            &&& claim is None
            &&& waited is None
            &&& sent is None
        },
        PhaseView::Waiting { task: t } => {
            &&& claimed
            &&& t == task
            &&& !task.is_exhausted(max_retries)
            &&& action == ActionView::Sleep { seconds: task.not_before }
            &&& waited is None
            &&& sent is None
        },
        PhaseView::Fetching { task: t } => {
            &&& claimed
            &&& t == task
            &&& !task.is_exhausted(max_retries)
            &&& well_formed(task.recipient_email)
            &&& action == ActionView::FetchIssue { issue_id: task.issue_id }
            &&& waited == Some(task.not_before)
            &&& sent is None
        },
        PhaseView::Sending { task: t } => {
            &&& claimed
            &&& t == task
            &&& !task.is_exhausted(max_retries)
            &&& well_formed(task.recipient_email)
            &&& issues.contains_key(task.issue_id)
            &&& action == ActionView::Send {
                message: MessageView::carrying(task.recipient_email, issues[task.issue_id]),
            }
            &&& waited == Some(task.not_before)
            &&& sent is None
        },
        PhaseView::Settling { transition } => {
            &&& claimed
            &&& action is Delete || action is Requeue
            &&& settled(held, mine.row_id, action) == target.queue
            &&& settled_result(held, action, transition) == target.report.result
            &&& waited == target.report.waited
            &&& sent == target.report.sent
        },
        PhaseView::Finished => {
            &&& match action {
                ActionView::Finish { result } => {
                    &&& result == target.report.result
                    &&& queue == target.queue
                    &&& claim is None
                },
                ActionView::Abandon { error } => {
                    &&& Err::<ExecutionOutcome, AttemptError>(error) == target.report.result
                    &&& claimed
                    &&& held.release(mine.row_id) == target.queue
                },
                _ => false,
            }
            &&& waited == target.report.waited
            &&& sent == target.report.sent
        },
    }
}

/// Makes one delivery attempt on a queue and a repository kept in memory.
///
/// `transport_accepts` tells how the mail transport answers should the attempt
/// hand it a message; the report says whether it did, and with which message.
/// The attempt gives a task up at `max_retries` retries.
pub fn try_execute_task(
    store: &mut TaskStore,
    issues: &IssueRepository,
    transport_accepts: bool,
    max_retries: u16,
) -> (report: AttemptReport)
    ensures
        report@ == run(old(store)@, issues@, transport_accepts, max_retries as nat).report,
        final(store)@ == run(old(store)@, issues@, transport_accepts, max_retries as nat).queue,
        final(store)@.wf(),
{
    proof {
        use_type_invariant(&*store);
    }
    let ghost queue0 = store@;
    let begun = Attempt::start(max_retries);
    let mut attempt = begun.0;
    let mut action = begun.1;
    let mut claim: Option<ClaimedTask> = None;
    let mut waited: Option<u16> = None;
    let mut sent: Option<Message> = None;
    loop
        invariant
            queue0 == old(store)@,
            queue0.wf(),
            store@.wf(),
            on_track(
                attempt@,
                action@,
                store@,
                match claim {
                    Some(c) => Some(c@),
                    None => None,
                },
                match waited {
                    Some(seconds) => Some(seconds as nat),
                    None => None,
                },
                match sent {
                    Some(message) => Some(message@),
                    None => None,
                },
                queue0,
                issues@,
                transport_accepts,
                max_retries as nat,
            ),
        decreases attempt@.reports_left(),
    {
        proof {
            if queue0.has_pending() {
                queue0.lemma_claim_holds();
            }
        }
        let event = match action {
            Action::Finish { result } => {
                return AttemptReport { result, waited, sent };
            },
            Action::Abandon { error } => {
                if let Some(held) = claim {
                    store.release(held);
                }
                return AttemptReport { result: Err(error), waited, sent };
            },
            Action::Claim => match store.claim_one() {
                Some(held) => {
                    let task = held.task().clone();
                    claim = Some(held);
                    Event::Claimed(task)
                },
                None => Event::QueueEmpty,
            },
            Action::Sleep { seconds } => {
                waited = Some(seconds);
                Event::Elapsed
            },
            Action::FetchIssue { issue_id } => match issues.get(issue_id) {
                Ok(issue) => Event::IssueFetched(issue),
                Err(error) => Event::StorageFailed(error),
            },
            Action::Send { message } => {
                sent = Some(message);
                if transport_accepts {
                    Event::Sent
                } else {
                    Event::SendFailed
                }
            },
            Action::Delete { issue_id, recipient_email } => {
                let held = claim;
                claim = None;
                let done = match held {
                    Some(held) => store.delete(held, issue_id, recipient_email.as_str()),
                    None => Err(StorageError::ClaimLost),
                };
                match done {
                    Ok(()) => Event::Settled,
                    Err(error) => Event::StorageFailed(error),
                }
            },
            Action::Requeue { successor } => {
                let held = claim;
                claim = None;
                let done = match held {
                    Some(held) => store.requeue(held, successor),
                    None => Err(StorageError::ClaimLost),
                };
                match done {
                    Ok(()) => Event::Settled,
                    Err(error) => Event::StorageFailed(error),
                }
            },
        };
        let next = attempt.step(event);
        attempt = next.0;
        action = next.1;
    }
}

} // verus!
