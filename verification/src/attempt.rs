//! One delivery attempt as a state machine.
//!
//! The machine decides and the caller acts. It starts by asking for a claim;
//! the caller performs each [`Action`] against its queue, its issue
//! repository, its clock and its mail transport, and reports what came of it
//! as an [`Event`]. The attempt is over when the machine answers with
//! `Finish` or `Abandon`.

use crate::email::{is_well_formed, well_formed};
use crate::task::{
    AttemptError, DeliveryTask, ExecutionOutcome, Issue, IssueView, Message, MessageView,
    StorageError, TaskView,
};
use uuid::Uuid;
use vstd::prelude::*;

verus! {

/// The ways in which an attempt brings a claimed task to an end.
#[derive(Clone, Copy, Debug, PartialEq, Eq, Structural)]
pub enum Transition {
    /// The task had used up its retries and is removed unsent.
    Exhausted,
    /// The recipient's address is malformed and the task is removed unsent.
    InvalidRecipient,
    /// The issue was sent and the task is removed.
    Delivered,
    /// Sending failed and a successor takes the task's place.
    Requeued,
}

impl Transition {
    /// What the attempt reports once the transition is stored: giving a task
    /// up is a failure, every other ending completes the task.
    pub open spec fn report(self) -> Result<ExecutionOutcome, AttemptError> {
        match self {
            Transition::Exhausted => Err(AttemptError::RetriesExhausted),
            _ => Ok(ExecutionOutcome::TaskCompleted),
        }
    }

    /// What the attempt reports once the transition is stored.
    pub fn result(self) -> (result: Result<ExecutionOutcome, AttemptError>)
        ensures
            result == self.report(),
    {
        match self {
            Transition::Exhausted => Err(AttemptError::RetriesExhausted),
            _ => Ok(ExecutionOutcome::TaskCompleted),
        }
    }
}

/// What the caller reports to the machine.
#[derive(Debug, PartialEq, Eq)]
pub enum Event {
    /// The queue handed out a claim on the task given here.
    Claimed(DeliveryTask),
    /// The queue had no task to claim.
    QueueEmpty,
    /// The wait that was asked for is over.
    Elapsed,
    /// The repository holds this issue under the identifier asked for.
    IssueFetched(Issue),
    /// The transport accepted the message.
    Sent,
    /// The transport did not accept the message.
    SendFailed,
    /// The queue stored the deletion or the successor that was asked for.
    Settled,
    /// The queue or the repository failed at what was asked for.
    StorageFailed(StorageError),
}

/// An event as a mathematical value.
pub enum EventView {
    Claimed(TaskView),
    QueueEmpty,
    Elapsed,
    IssueFetched(IssueView),
    Sent,
    SendFailed,
    Settled,
    StorageFailed(StorageError),
}

impl View for Event {
    type V = EventView;

    open spec fn view(&self) -> EventView {
        match self {
            Event::Claimed(task) => EventView::Claimed(task@),
            Event::QueueEmpty => EventView::QueueEmpty,
            Event::Elapsed => EventView::Elapsed,
            Event::IssueFetched(issue) => EventView::IssueFetched(issue@),
            Event::Sent => EventView::Sent,
            Event::SendFailed => EventView::SendFailed,
            Event::Settled => EventView::Settled,
            Event::StorageFailed(error) => EventView::StorageFailed(*error),
        }
    }
}

/// What the machine asks of the caller.
#[derive(Debug, PartialEq, Eq)]
pub enum Action {
    /// Claim one task from the queue.
    Claim,
    /// Wait this long before anything else.
    Sleep { seconds: u16 },
    /// Fetch the issue kept under this identifier.
    FetchIssue { issue_id: Uuid },
    /// Hand this message to the transport.
    Send { message: Message },
    /// Settle the claim by deleting under these keys.
    Delete { issue_id: Uuid, recipient_email: String },
    /// Settle the claim by putting the successor in the place of the claimed task,
    /// in one step.
    Requeue { successor: DeliveryTask },
    /// Let go of the claim, if one is held, and report this error.
    Abandon { error: AttemptError },
    /// Report this result; no claim is held any more.
    Finish { result: Result<ExecutionOutcome, AttemptError> },
}

/// An action as a mathematical value.
pub enum ActionView {
    Claim,
    Sleep { seconds: nat },
    FetchIssue { issue_id: Uuid },
    Send { message: MessageView },
    Delete { issue_id: Uuid, recipient_email: Seq<char> },
    Requeue { successor: TaskView },
    Abandon { error: AttemptError },
    Finish { result: Result<ExecutionOutcome, AttemptError> },
}

impl View for Action {
    type V = ActionView;

    open spec fn view(&self) -> ActionView {
        match self {
            Action::Claim => ActionView::Claim,
            Action::Sleep { seconds } => ActionView::Sleep { seconds: *seconds as nat },
            Action::FetchIssue { issue_id } => ActionView::FetchIssue { issue_id: *issue_id },
            Action::Send { message } => ActionView::Send { message: message@ },
            Action::Delete { issue_id, recipient_email } => ActionView::Delete {
                issue_id: *issue_id,
                recipient_email: recipient_email@,
            },
            Action::Requeue { successor } => ActionView::Requeue { successor: successor@ },
            Action::Abandon { error } => ActionView::Abandon { error: *error },
            Action::Finish { result } => ActionView::Finish { result: *result },
        }
    }
}

/// Where an attempt stands, as a mathematical value.
pub enum PhaseView {
    /// A claim was asked for.
    Claiming,
    /// The task is claimed and its wait was asked for.
    Waiting { task: TaskView },
    /// The recipient is well formed and the issue was asked for.
    Fetching { task: TaskView },
    /// The message was handed over for sending.
    Sending { task: TaskView },
    /// The queue was asked to store this ending.
    Settling { transition: Transition },
    /// The attempt is over.
    Finished,
}

/// An attempt as a mathematical value.
pub struct AttemptView {
    pub max_retries: nat,
    pub phase: PhaseView,
}

impl AttemptView {
    /// The attempt that has just asked for a claim.
    pub open spec fn start(max_retries: nat) -> AttemptView {
        AttemptView { max_retries, phase: PhaseView::Claiming }
    }

    /// This attempt in another phase.
    pub open spec fn at(self, phase: PhaseView) -> AttemptView {
        AttemptView { phase, ..self }
    }

    /// The keys under which `task` is deleted.
    pub open spec fn delete_of(task: TaskView) -> ActionView {
        ActionView::Delete { issue_id: task.issue_id, recipient_email: task.recipient_email }
    }

    /// The rule of the machine: the phase that follows and the action asked
    /// for when `event` is reported in this phase.
    ///
    /// A claimed task that has used up its retries is deleted at once. Any
    /// other task is waited for; then its recipient is checked, and a task
    /// with a malformed recipient is deleted. For a well-formed recipient the
    /// issue is fetched and sent. A task whose issue was sent is deleted; one
    /// whose sending failed is replaced by its successor, or let go where the
    /// successor's counters cannot be stored. A failure of the repository lets
    /// go of the claim; a failure of the queue ends the attempt. An event that
    /// the phase did not ask for ends the attempt and lets go of the claim.
    pub open spec fn step(self, event: EventView) -> (AttemptView, ActionView) {
        let over = self.at(PhaseView::Finished);
        match (self.phase, event) {
            (PhaseView::Claiming, EventView::QueueEmpty) => (
                over,
                ActionView::Finish { result: Ok(ExecutionOutcome::EmptyQueue) },
            ),
            (PhaseView::Claiming, EventView::StorageFailed(error)) => (
                over,
                ActionView::Finish { result: Err(AttemptError::Storage(error)) },
            ),
            (PhaseView::Claiming, EventView::Claimed(task)) => if task.is_exhausted(
                self.max_retries,
            ) {
                (
                    self.at(PhaseView::Settling { transition: Transition::Exhausted }),
                    Self::delete_of(task),
                )
            } else {
                (self.at(PhaseView::Waiting { task }), ActionView::Sleep { seconds: task.not_before })
            },
            (PhaseView::Waiting { task }, EventView::Elapsed) => if well_formed(
                task.recipient_email,
            ) {
                (
                    self.at(PhaseView::Fetching { task }),
                    ActionView::FetchIssue { issue_id: task.issue_id },
                )
            } else {
                (
                    self.at(PhaseView::Settling { transition: Transition::InvalidRecipient }),
                    Self::delete_of(task),
                )
            },
            (PhaseView::Fetching { task }, EventView::IssueFetched(issue)) => (
                self.at(PhaseView::Sending { task }),
                ActionView::Send { message: MessageView::carrying(task.recipient_email, issue) },
            ),
            (PhaseView::Fetching { task }, EventView::StorageFailed(error)) => (
                over,
                ActionView::Abandon { error: AttemptError::Storage(error) },
            ),
            (PhaseView::Sending { task }, EventView::Sent) => (
                self.at(PhaseView::Settling { transition: Transition::Delivered }),
                Self::delete_of(task),
            ),
            (PhaseView::Sending { task }, EventView::SendFailed) => if task.retried().representable() {
                (
                    self.at(PhaseView::Settling { transition: Transition::Requeued }),
                    ActionView::Requeue { successor: task.retried() },
                )
            } else {
                (over, ActionView::Abandon { error: AttemptError::Storage(StorageError::OutOfRange) })
            },
            (PhaseView::Settling { transition }, EventView::Settled) => (
                over,
                ActionView::Finish { result: transition.report() },
            ),
            (PhaseView::Settling { transition }, EventView::StorageFailed(error)) => (
                over,
                ActionView::Finish { result: Err(AttemptError::Storage(error)) },
            ),
            _ => (over, ActionView::Abandon { error: AttemptError::OutOfTurn }),
        }
    }
}

impl AttemptView {
    /// How many reports the attempt can still take before it is over.
    pub open spec fn reports_left(self) -> nat {
        match self.phase {
            PhaseView::Claiming => 5,
            PhaseView::Waiting { .. } => 4,
            PhaseView::Fetching { .. } => 3,
            PhaseView::Sending { .. } => 2,
            PhaseView::Settling { .. } => 1,
            PhaseView::Finished => 0,
        }
    }

    /// What the attempt has found out about the task it holds: a task that is
    /// waited for has retries left, and one whose issue is fetched or sent
    /// has a well-formed recipient besides.
    pub open spec fn sound(self) -> bool {
        match self.phase {
            PhaseView::Waiting { task } => !task.is_exhausted(self.max_retries),
            PhaseView::Fetching { task } | PhaseView::Sending { task } => {
                &&& !task.is_exhausted(self.max_retries)
                &&& well_formed(task.recipient_email)
            },
            _ => true,
        }
    }

    /// An attempt is sound when it starts and stays sound whatever is
    /// reported to it.
    pub proof fn lemma_sound_throughout(self, event: EventView)
        ensures
            Self::start(self.max_retries).sound(),
            self.sound() ==> self.step(event).0.sound(),
    {
    }

    /// Every report brings the attempt nearer to its end, so an attempt is
    /// over after five reports at most; once it is over it asks for nothing
    /// but to be abandoned.
    pub proof fn lemma_step_ends(self, event: EventView)
        ensures
            !(self.phase is Finished) ==> self.step(event).0.reports_left() < self.reports_left(),
            self.phase is Finished ==> self.step(event) == (
                self,
                ActionView::Abandon { error: AttemptError::OutOfTurn },
            ),
            self.step(event).1 is Finish || self.step(event).1 is Abandon <==> self.step(
                event,
            ).0.phase is Finished,
            self.step(event).0.max_retries == self.max_retries,
    {
    }

    /// The transport is asked only after the issue was fetched for a task
    /// that has retries left and a well-formed recipient, and the message
    /// goes to that recipient.
    pub proof fn lemma_send_is_earned(self, event: EventView)
        requires
            self.sound(),
            self.step(event).1 is Send,
        ensures
            self.phase is Fetching,
            event is IssueFetched,
            ({
                let task = self.phase->Fetching_task;
                &&& !task.is_exhausted(self.max_retries)
                &&& well_formed(task.recipient_email)
                &&& self.step(event).1->message == MessageView::carrying(
                    task.recipient_email,
                    event->IssueFetched_0,
                )
            }),
    {
    }

    /// A successor is asked for only after the transport failed on a task
    /// that has retries left, and it is that task with one more retry on the
    /// count and one more second to wait.
    pub proof fn lemma_requeue_is_earned(self, event: EventView)
        requires
            self.sound(),
            self.step(event).1 is Requeue,
        ensures
            self.phase is Sending,
            event is SendFailed,
            ({
                let task = self.phase->Sending_task;
                let successor = self.step(event).1->successor;
                &&& !task.is_exhausted(self.max_retries)
                &&& successor.has_keys(task.issue_id, task.recipient_email)
                &&& successor.retry_count == task.retry_count + 1
                &&& successor.not_before == task.not_before + 1
            }),
    {
    }

    /// A task that was claimed with its retries used up, or whose recipient
    /// turned out malformed, is deleted under its own keys, and the attempt
    /// then ends without a message or a successor, whatever is reported.
    pub proof fn lemma_given_up_is_deleted(self, event: EventView, after: EventView)
        requires
            self.sound(),
            self.step(event).0.phase matches PhaseView::Settling { transition }
                && (transition is Exhausted || transition is InvalidRecipient),
        ensures
            (self.phase is Claiming && event is Claimed && event->Claimed_0.is_exhausted(
                self.max_retries,
            ) && self.step(event).1 == Self::delete_of(event->Claimed_0)) || (self.phase is Waiting
                && event is Elapsed && !well_formed(self.phase->Waiting_task.recipient_email)
                && self.step(event).1 == Self::delete_of(self.phase->Waiting_task)),
            self.step(event).0.step(after).0.phase is Finished,
            self.step(event).0.step(after).1 is Finish || self.step(event).0.step(after).1 is Abandon,
    {
    }
}

enum Phase {
    Claiming,
    Waiting { task: DeliveryTask },
    Fetching { task: DeliveryTask },
    Sending { task: DeliveryTask },
    Settling { transition: Transition },
    Finished,
}

impl View for Phase {
    type V = PhaseView;

    closed spec fn view(&self) -> PhaseView {
        match self {
            Phase::Claiming => PhaseView::Claiming,
            Phase::Waiting { task } => PhaseView::Waiting { task: task@ },
            Phase::Fetching { task } => PhaseView::Fetching { task: task@ },
            Phase::Sending { task } => PhaseView::Sending { task: task@ },
            Phase::Settling { transition } => PhaseView::Settling { transition: *transition },
            Phase::Finished => PhaseView::Finished,
        }
    }
}

/// One delivery attempt under way.
pub struct Attempt {
    max_retries: u16,
    phase: Phase,
}

impl View for Attempt {
    type V = AttemptView;

    closed spec fn view(&self) -> AttemptView {
        AttemptView { max_retries: self.max_retries as nat, phase: self.phase@ }
    }
}

fn delete_of(task: DeliveryTask) -> (action: Action)
    ensures
        action@ == AttemptView::delete_of(task@),
{
    Action::Delete { issue_id: task.issue_id, recipient_email: task.recipient_email }
}

impl Attempt {
    /// Begins an attempt that gives a task up at `max_retries` retries. The
    /// action that comes with it asks for a claim.
    pub fn start(max_retries: u16) -> (begun: (Attempt, Action))
        ensures
            begun.0@ == AttemptView::start(max_retries as nat),
            begun.1@ == ActionView::Claim,
    {
        (Attempt { max_retries, phase: Phase::Claiming }, Action::Claim)
    }

    /// The ending that the queue was asked to store, while the attempt waits
    /// for the queue's answer.
    pub fn settling(&self) -> (transition: Option<Transition>)
        ensures
            transition == (match self@.phase {
                PhaseView::Settling { transition } => Some(transition),
                _ => None,
            }),
    {
        match self.phase {
            Phase::Settling { transition } => Some(transition),
            _ => None,
        }
    }

    /// Whether the attempt is over.
    pub fn is_finished(&self) -> (over: bool)
        ensures
            over == (self@.phase is Finished),
    {
        match self.phase {
            Phase::Finished => true,
            _ => false,
        }
    }

    /// Takes the report of what came of the last action and answers with the
    /// phase that follows and the next action.
    pub fn step(self, event: Event) -> (next: (Attempt, Action))
        ensures
            (next.0@, next.1@) == self@.step(event@),
    {
        let max_retries = self.max_retries;
        let (phase, action) = match self.phase {
            Phase::Claiming => match event {
                Event::QueueEmpty => (
                    Phase::Finished,
                    Action::Finish { result: Ok(ExecutionOutcome::EmptyQueue) },
                ),
                Event::StorageFailed(error) => (
                    Phase::Finished,
                    Action::Finish { result: Err(AttemptError::Storage(error)) },
                ),
                Event::Claimed(task) => if task.is_exhausted(max_retries) {
                    (Phase::Settling { transition: Transition::Exhausted }, delete_of(task))
                } else {
                    let seconds = task.not_before;
                    (Phase::Waiting { task }, Action::Sleep { seconds })
                },
                _ => (Phase::Finished, Action::Abandon { error: AttemptError::OutOfTurn }),
            },
            Phase::Waiting { task } => match event {
                Event::Elapsed => if is_well_formed(task.recipient_email.as_str()) {
                    let issue_id = task.issue_id;
                    (Phase::Fetching { task }, Action::FetchIssue { issue_id })
                } else {
                    (Phase::Settling { transition: Transition::InvalidRecipient }, delete_of(task))
                },
                _ => (Phase::Finished, Action::Abandon { error: AttemptError::OutOfTurn }),
            },
            Phase::Fetching { task } => match event {
                Event::IssueFetched(issue) => {
                    let recipient = task.recipient_email.clone();
                    (
                        Phase::Sending { task },
                        Action::Send {
                            message: Message {
                                recipient,
                                subject: issue.title,
                                html_body: issue.html_content,
                                text_body: issue.text_content,
                            },
                        },
                    )
                },
                Event::StorageFailed(error) => (
                    Phase::Finished,
                    Action::Abandon { error: AttemptError::Storage(error) },
                ),
                _ => (Phase::Finished, Action::Abandon { error: AttemptError::OutOfTurn }),
            },
            Phase::Sending { task } => match event {
                Event::Sent => (Phase::Settling { transition: Transition::Delivered }, delete_of(task)),
                Event::SendFailed => match task.retried() {
                    Some(successor) => (
                        Phase::Settling { transition: Transition::Requeued },
                        Action::Requeue { successor },
                    ),
                    None => (
                        Phase::Finished,
                        Action::Abandon { error: AttemptError::Storage(StorageError::OutOfRange) },
                    ),
                },
                _ => (Phase::Finished, Action::Abandon { error: AttemptError::OutOfTurn }),
            },
            Phase::Settling { transition } => match event {
                Event::Settled => (Phase::Finished, Action::Finish { result: transition.result() }),
                Event::StorageFailed(error) => (
                    Phase::Finished,
                    Action::Finish { result: Err(AttemptError::Storage(error)) },
                ),
                _ => (Phase::Finished, Action::Abandon { error: AttemptError::OutOfTurn }),
            },
            Phase::Finished => (Phase::Finished, Action::Abandon { error: AttemptError::OutOfTurn }),
        };
        (Attempt { max_retries, phase }, action)
    }
}

} // verus!
