//! The records the worker handles: a pending delivery, the issue it delivers,
//! and what can go wrong on the way.

use uuid::Uuid;
use vstd::prelude::*;

verus! {

/// How often a delivery is retried before it is given up.
pub const MAX_RETRIES: u16 = 5;

/// One pending delivery of an issue to a subscriber.
#[derive(Debug, PartialEq, Eq)]
pub struct DeliveryTask {
    /// The issue to deliver.
    pub issue_id: Uuid,
    /// The recipient's address as it was stored; nothing is known of its form.
    pub recipient_email: String,
    /// How many deliveries have failed before.
    pub retry_count: u16,
    /// The seconds to wait before the delivery is tried.
    pub not_before: u16,
}

/// A pending delivery as a mathematical value.
pub struct TaskView {
    pub issue_id: Uuid,
    pub recipient_email: Seq<char>,
    pub retry_count: nat,
    pub not_before: nat,
}

impl TaskView {
    /// The task has been retried as often as `max_retries` allows.
    pub open spec fn is_exhausted(self, max_retries: nat) -> bool {
        self.retry_count == max_retries
    }

    /// The task that takes this one's place after a failed delivery: one more
    /// retry on the count, one more second to wait.
    pub open spec fn retried(self) -> TaskView {
        TaskView {
            retry_count: self.retry_count + 1,
            not_before: self.not_before + 1,
            ..self
        }
    }

    /// Both counters fit the width in which a task stores them.
    pub open spec fn representable(self) -> bool {
        self.retry_count <= u16::MAX && self.not_before <= u16::MAX
    }

    /// The task is kept under the given issue and address.
    pub open spec fn has_keys(self, issue_id: Uuid, recipient_email: Seq<char>) -> bool {
        self.issue_id == issue_id && self.recipient_email == recipient_email
    }
}

impl View for DeliveryTask {
    type V = TaskView;

    open spec fn view(&self) -> TaskView {
        TaskView {
            issue_id: self.issue_id,
            recipient_email: self.recipient_email@,
            retry_count: self.retry_count as nat,
            not_before: self.not_before as nat,
        }
    }
}

impl Clone for DeliveryTask {
    fn clone(&self) -> (copy: Self)
        ensures
            copy@ == self@,
    {
        DeliveryTask {
            issue_id: self.issue_id,
            recipient_email: self.recipient_email.clone(),
            retry_count: self.retry_count,
            not_before: self.not_before,
        }
    }
}

impl DeliveryTask {
    /// A task for `issue_id` and `recipient_email` with the given counters.
    pub fn new(issue_id: Uuid, recipient_email: String, retry_count: u16, not_before: u16) -> (task:
        Self)
        ensures
            task@ == (TaskView {
                issue_id,
                recipient_email: recipient_email@,
                retry_count: retry_count as nat,
                not_before: not_before as nat,
            }),
    {
        DeliveryTask { issue_id, recipient_email, retry_count, not_before }
    }

    /// Whether the task has been retried as often as `max_retries` allows.
    pub fn is_exhausted(&self, max_retries: u16) -> (exhausted: bool)
        ensures
            exhausted == self@.is_exhausted(max_retries as nat),
    {
        self.retry_count == max_retries
    }

    /// The task that takes this one's place after a failed delivery, or `None`
    /// where a counter has no room for one more.
    pub fn retried(&self) -> (next: Option<DeliveryTask>)
        ensures
            next is Some == self@.retried().representable(),
            next matches Some(task) ==> task@ == self@.retried(),
    {
        if self.retry_count == u16::MAX || self.not_before == u16::MAX {
            None
        } else {
            Some(
                DeliveryTask {
                    issue_id: self.issue_id,
                    recipient_email: self.recipient_email.clone(),
                    retry_count: self.retry_count + 1,
                    not_before: self.not_before + 1,
                },
            )
        }
    }
}

/// What is sent for one issue.
#[derive(Debug, PartialEq, Eq)]
pub struct Issue {
    pub title: String,
    pub html_content: String,
    pub text_content: String,
}

/// An issue as a mathematical value.
pub struct IssueView {
    pub title: Seq<char>,
    pub html_content: Seq<char>,
    pub text_content: Seq<char>,
}

impl View for Issue {
    type V = IssueView;

    open spec fn view(&self) -> IssueView {
        IssueView {
            title: self.title@,
            html_content: self.html_content@,
            text_content: self.text_content@,
        }
    }
}

impl Clone for Issue {
    fn clone(&self) -> (copy: Self)
        ensures
            copy@ == self@,
    {
        Issue {
            title: self.title.clone(),
            html_content: self.html_content.clone(),
            text_content: self.text_content.clone(),
        }
    }
}

/// What is handed to the mail transport for one delivery.
#[derive(Debug, PartialEq, Eq)]
pub struct Message {
    pub recipient: String,
    pub subject: String,
    pub html_body: String,
    pub text_body: String,
}

/// A message as a mathematical value.
pub struct MessageView {
    pub recipient: Seq<char>,
    pub subject: Seq<char>,
    pub html_body: Seq<char>,
    pub text_body: Seq<char>,
}

impl MessageView {
    /// The message that carries `issue` to `recipient`.
    pub open spec fn carrying(recipient: Seq<char>, issue: IssueView) -> MessageView {
        MessageView {
            recipient,
            subject: issue.title,
            html_body: issue.html_content,
            text_body: issue.text_content,
        }
    }
}

impl View for Message {
    type V = MessageView;

    open spec fn view(&self) -> MessageView {
        MessageView {
            recipient: self.recipient@,
            subject: self.subject@,
            html_body: self.html_body@,
            text_body: self.text_body@,
        }
    }
}

/// A failure of the queue or of the issue repository.
#[derive(Clone, Copy, Debug, PartialEq, Eq, Structural)]
pub enum StorageError {
    /// The claim no longer holds a row: its scope has failed.
    ClaimLost,
    /// No issue is kept under the identifier.
    IssueNotFound,
    /// An issue is kept under the identifier already.
    IssueExists,
    /// A counter of the row to insert is beyond what a row can store.
    OutOfRange,
    /// The queue has no identifier left for another row.
    QueueFull,
    /// The storage could not be reached or refused the operation.
    Unavailable,
}

/// Why a delivery attempt failed as a whole.
#[derive(Clone, Copy, Debug, PartialEq, Eq, Structural)]
pub enum AttemptError {
    /// The task had used up its retries; it was removed without a delivery.
    RetriesExhausted,
    /// The queue or the issue repository failed.
    Storage(StorageError),
    /// The attempt was told of something it had not asked for.
    OutOfTurn,
}

impl AttemptError {
    /// The sentence that describes the failure.
    pub open spec fn text(self) -> Seq<char> {
        match self {
            AttemptError::RetriesExhausted => "Failed to deliver issue to a confirmed subscriber. Skipping this subscriber."@,
            AttemptError::Storage(StorageError::ClaimLost) => "The claim on the task was lost."@,
            AttemptError::Storage(StorageError::IssueNotFound) => "The issue to deliver was not found."@,
            AttemptError::Storage(StorageError::IssueExists) => "The issue is published already."@,
            AttemptError::Storage(StorageError::OutOfRange) => "The retry counters of the task cannot grow any further."@,
            AttemptError::Storage(StorageError::QueueFull) => "The queue cannot take another task."@,
            AttemptError::Storage(StorageError::Unavailable) => "The storage could not be reached."@,
            AttemptError::OutOfTurn => "The delivery attempt was driven out of turn."@,
        }
    }

    /// The sentence that describes the failure.
    pub fn message(self) -> (message: &'static str)
        ensures
            message@ == self.text(),
    {
        match self {
            AttemptError::RetriesExhausted => "Failed to deliver issue to a confirmed subscriber. Skipping this subscriber.",
            AttemptError::Storage(StorageError::ClaimLost) => "The claim on the task was lost.",
            AttemptError::Storage(StorageError::IssueNotFound) => "The issue to deliver was not found.",
            AttemptError::Storage(StorageError::IssueExists) => "The issue is published already.",
            AttemptError::Storage(StorageError::OutOfRange) => "The retry counters of the task cannot grow any further.",
            AttemptError::Storage(StorageError::QueueFull) => "The queue cannot take another task.",
            AttemptError::Storage(StorageError::Unavailable) => "The storage could not be reached.",
            AttemptError::OutOfTurn => "The delivery attempt was driven out of turn.",
        }
    }
}

/// How a delivery attempt ended when it did not fail.
#[derive(Clone, Copy, Debug, PartialEq, Eq, Structural)]
pub enum ExecutionOutcome {
    /// A task was claimed and brought to an end.
    TaskCompleted,
    /// No task could be claimed.
    EmptyQueue,
}

} // verus!
