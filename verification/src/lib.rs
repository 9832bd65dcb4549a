//! Durable, at-least-once delivery of newsletter issues.
//!
//! A worker drains a queue of pending deliveries, each the task of sending
//! one issue to one subscriber. It claims a task, so that no other worker
//! takes the same one, tries the delivery, and settles the claim: the task is
//! deleted when the issue was sent, when the recipient's address is malformed
//! or when the retries are used up, and it is replaced by a successor with
//! one more retry and one more second to wait when the transport failed.
//!
//! * [`task`] holds the records: tasks, issues, messages, errors.
//! * [`email`] decides which recipient addresses are well formed.
//! * [`store`] is the queue with its claims, [`issues`] the repository of
//!   published issues; both are kept in memory.
//! * [`attempt`] is one delivery attempt as a state machine that a caller
//!   drives against a queue, a repository, a clock and a transport of any
//!   kind.
//! * [`worker`] drives an attempt against the queue and the repository of
//!   this crate and says how long a worker rests between attempts.
//! * [`newsletter`] and [`password`] hold what the publishing and the
//!   administration of a newsletter need besides.

pub mod attempt;
pub mod email;
pub mod ident;
pub mod issues;
pub mod newsletter;
pub mod password;
pub mod store;
pub mod task;
pub mod text;
pub mod worker;
