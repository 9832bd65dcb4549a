//! The queue of pending deliveries, kept in memory.
//!
//! Each row has an identifier that no other row of the queue ever gets, and a
//! mark that tells whether a worker holds it. A worker claims a row, which
//! marks it, and later settles the claim: it deletes the row, puts a
//! successor in its place, or lets go of it. A marked row is passed over by
//! every other claim, so a second worker never waits for the first.

use crate::ident::same_issue;
use crate::task::{DeliveryTask, StorageError, TaskView};
use crate::text::same_text;
use uuid::Uuid;
use vstd::prelude::*;

verus! {

/// One row of the queue as a mathematical value.
pub struct RowView {
    pub id: nat,
    pub claimed: bool,
    pub task: TaskView,
}

/// A claim as a mathematical value: the row it holds and the task in it.
pub struct ClaimView {
    pub row_id: nat,
    pub task: TaskView,
}

/// The queue as a mathematical value: its rows, oldest first, and the
/// identifier that the next row will get.
pub struct QueueView {
    pub rows: Seq<RowView>,
    pub next_id: nat,
}

impl QueueView {
    /// The queue without rows.
    pub open spec fn empty() -> QueueView {
        QueueView { rows: Seq::empty(), next_id: 0 }
    }

    /// Identifiers grow along the rows and stay below the next one to hand out.
    pub open spec fn wf(self) -> bool {
        &&& self.next_id <= u64::MAX
        &&& forall|i: int| 0 <= i < self.rows.len() ==> (#[trigger] self.rows[i]).id < self.next_id
        &&& forall|i: int, j: int|
            0 <= i < j < self.rows.len() ==> (#[trigger] self.rows[i]).id < (
            #[trigger] self.rows[j]).id
    }

    /// Row `i` is the oldest row that no claim holds.
    pub open spec fn is_first_pending(self, i: int) -> bool {
        &&& 0 <= i < self.rows.len()
        &&& !self.rows[i].claimed
        &&& forall|j: int| 0 <= j < i ==> (#[trigger] self.rows[j]).claimed
    }

    /// Some row is held by no claim.
    pub open spec fn has_pending(self) -> bool {
        exists|i: int| self.is_first_pending(i)
    }

    /// The index of the oldest row that no claim holds.
    pub open spec fn first_pending(self) -> int {
        choose|i: int| self.is_first_pending(i)
    }

    /// The claim that the next `claim_one` hands out.
    pub open spec fn next_claim(self) -> ClaimView {
        let row = self.rows[self.first_pending()];
        ClaimView { row_id: row.id, task: row.task }
    }

    /// The row with identifier `id` stands at index `i`.
    pub open spec fn is_at(self, id: nat, i: int) -> bool {
        0 <= i < self.rows.len() && self.rows[i].id == id
    }

    /// The queue has a row with identifier `id`.
    pub open spec fn contains(self, id: nat) -> bool {
        exists|i: int| self.is_at(id, i)
    }

    /// The index of the row with identifier `id`.
    pub open spec fn index_of(self, id: nat) -> int {
        choose|i: int| self.is_at(id, i)
    }

    /// A claim holds the row with identifier `id`.
    pub open spec fn holds(self, id: nat) -> bool {
        self.contains(id) && self.rows[self.index_of(id)].claimed
    }

    /// The queue once had a row with identifier `id` and has it no more.
    pub open spec fn gone(self, id: nat) -> bool {
        id < self.next_id && !self.contains(id)
    }

    /// The queue with the mark of row `i` set to `claimed`.
    pub open spec fn marked(self, i: int, claimed: bool) -> QueueView {
        QueueView { rows: self.rows.update(i, RowView { claimed, ..self.rows[i] }), ..self }
    }

    /// The queue after a claim: the oldest unheld row is marked, if there is one.
    pub open spec fn claim(self) -> QueueView {
        if self.has_pending() {
            self.marked(self.first_pending(), true)
        } else {
            self
        }
    }

    /// The queue after the claim on row `id` is let go: the row stays, unheld.
    pub open spec fn release(self, id: nat) -> QueueView {
        if self.holds(id) {
            self.marked(self.index_of(id), false)
        } else {
            self
        }
    }

    /// The queue after the claim on row `id` deletes by the given keys: the
    /// row is gone if it is kept under them, and is let go if it is not.
    pub open spec fn delete(self, id: nat, issue_id: Uuid, recipient_email: Seq<char>) -> QueueView {
        if !self.holds(id) {
            self
        } else if self.rows[self.index_of(id)].task.has_keys(issue_id, recipient_email) {
            QueueView { rows: self.rows.remove(self.index_of(id)), ..self }
        } else {
            self.release(id)
        }
    }

    /// The queue has an identifier left for another row.
    pub open spec fn has_room(self) -> bool {
        self.next_id < u64::MAX
    }

    /// The queue after `task` is added as its youngest row, unheld.
    pub open spec fn enqueue(self, task: TaskView) -> QueueView {
        if self.has_room() {
            QueueView {
                rows: self.rows.push(RowView { id: self.next_id, claimed: false, task }),
                next_id: self.next_id + 1,
            }
        } else {
            self
        }
    }

    /// The queue after the claim on row `id` puts `successor` in the row's
    /// place: the deletion by the successor's keys and the insertion happen
    /// both, or the claim is let go and nothing else changes.
    pub open spec fn requeue(self, id: nat, successor: TaskView) -> QueueView {
        if !self.holds(id) {
            self
        } else if !self.has_room() {
            self.release(id)
        } else {
            self.delete(id, successor.issue_id, successor.recipient_email).enqueue(successor)
        }
    }

    /// Marking a row keeps the queue well formed.
    pub proof fn lemma_marked_wf(self, i: int, claimed: bool)
        requires
            self.wf(),
            0 <= i < self.rows.len(),
        ensures
            self.marked(i, claimed).wf(),
    {
        let after = self.marked(i, claimed);
        assert forall|k: int| 0 <= k < after.rows.len() implies (#[trigger] after.rows[k]).id
            == self.rows[k].id by {}
    }

    /// Removing a row keeps the queue well formed.
    pub proof fn lemma_remove_wf(self, i: int)
        requires
            self.wf(),
            0 <= i < self.rows.len(),
        ensures
            (QueueView { rows: self.rows.remove(i), ..self }).wf(),
    {
        let after = self.rows.remove(i);
        assert forall|k: int| 0 <= k < after.len() implies (#[trigger] after[k]).id == self.rows[if k
            < i {
            k
        } else {
            k + 1
        }].id by {}
    }

    /// Adding a row keeps the queue well formed.
    pub proof fn lemma_enqueue_wf(self, task: TaskView)
        requires
            self.wf(),
        ensures
            self.enqueue(task).wf(),
    {
    }

    /// What a claim leaves behind: the claimed row is held, stands where the
    /// oldest unheld row stood and keeps its task, and no other row changes.
    pub proof fn lemma_claim_holds(self)
        requires
            self.wf(),
            self.has_pending(),
        ensures
            self.claim().wf(),
            self.claim().holds(self.next_claim().row_id),
            self.claim().index_of(self.next_claim().row_id) == self.first_pending(),
            0 <= self.first_pending() < self.rows.len(),
            self.claim().rows[self.first_pending()].task == self.next_claim().task,
            self.claim().next_id == self.next_id,
    {
        let i = self.first_pending();
        assert(self.is_first_pending(i));
        self.lemma_marked_wf(i, true);
        assert(self.claim().is_at(self.next_claim().row_id, i));
        self.claim().lemma_index_of_is(self.next_claim().row_id, i);
    }

    /// A claim hands out no row that is held already.
    pub proof fn lemma_held_row_is_passed_over(self, id: nat)
        requires
            self.wf(),
            self.holds(id),
            self.has_pending(),
        ensures
            self.next_claim().row_id != id,
    {
        let i = self.first_pending();
        assert(self.is_first_pending(i));
        if self.rows[i].id == id {
            self.lemma_index_of_is(id, i);
        }
    }

    /// Of two claims on a queue whose single row is unheld, the first gets
    /// the row and the second finds nothing to claim and changes nothing.
    pub proof fn lemma_single_row_is_claimed_once(self)
        requires
            self.wf(),
            self.rows.len() == 1,
            !self.rows[0].claimed,
        ensures
            self.has_pending(),
            self.next_claim() == (ClaimView { row_id: self.rows[0].id, task: self.rows[0].task }),
            !self.claim().has_pending(),
            self.claim().claim() == self.claim(),
    {
        self.lemma_first_pending_is(0);
        let held = self.claim();
        assert(held.rows[0].claimed);
        assert forall|i: int| !held.is_first_pending(i) by {}
    }

    /// A claimed row that is deleted under its own keys leaves the queue, and
    /// nothing else changes: no row is added and none is marked.
    pub proof fn lemma_claim_then_delete(self)
        requires
            self.wf(),
            self.has_pending(),
        ensures
            ({
                let mine = self.next_claim();
                let after = self.claim().delete(
                    mine.row_id,
                    mine.task.issue_id,
                    mine.task.recipient_email,
                );
                &&& after.rows == self.rows.remove(self.first_pending())
                &&& after.next_id == self.next_id
                &&& after.wf()
                &&& after.gone(mine.row_id)
            }),
    {
        let i = self.first_pending();
        let mine = self.next_claim();
        self.lemma_claim_holds();
        let after = self.claim().delete(mine.row_id, mine.task.issue_id, mine.task.recipient_email);
        assert(after.rows =~= self.rows.remove(i));
        self.lemma_remove_wf(i);
        assert(self.rows[i].id < self.next_id);
        assert forall|k: int| !after.is_at(mine.row_id, k) by {
            if 0 <= k < after.rows.len() {
                if k < i {
                    assert(self.rows[k].id < self.rows[i].id);
                } else {
                    assert(self.rows[i].id < self.rows[k + 1].id);
                }
            }
        }
    }

    /// A claimed row that is replaced by a successor under the same keys
    /// leaves the queue, and the successor is the one row that is added: it
    /// is the youngest row, unheld, under the identifier that was next.
    pub proof fn lemma_claim_then_requeue(self, successor: TaskView)
        requires
            self.wf(),
            self.has_pending(),
            self.has_room(),
            successor.has_keys(
                self.next_claim().task.issue_id,
                self.next_claim().task.recipient_email,
            ),
        ensures
            ({
                let mine = self.next_claim();
                let after = self.claim().requeue(mine.row_id, successor);
                &&& after.rows == self.rows.remove(self.first_pending()).push(
                    RowView { id: self.next_id, claimed: false, task: successor },
                )
                &&& after.next_id == self.next_id + 1
                &&& after.wf()
                &&& after.gone(mine.row_id)
            }),
    {
        let i = self.first_pending();
        let mine = self.next_claim();
        self.lemma_claim_then_delete();
        let deleted = self.claim().delete(mine.row_id, mine.task.issue_id, mine.task.recipient_email);
        self.lemma_claim_holds();
        let after = self.claim().requeue(mine.row_id, successor);
        assert(after == deleted.enqueue(successor));
        deleted.lemma_enqueue_wf(successor);
        assert forall|k: int| !after.is_at(mine.row_id, k) by {
            if 0 <= k < deleted.rows.len() {
                assert(!deleted.is_at(mine.row_id, k));
            }
        }
    }

    /// A claim that is let go leaves the queue as it was before the claim.
    pub proof fn lemma_claim_then_release(self)
        requires
            self.wf(),
            self.has_pending(),
        ensures
            self.claim().release(self.next_claim().row_id) == self,
    {
        self.lemma_claim_holds();
        let after = self.claim().release(self.next_claim().row_id);
        assert(after.rows =~= self.rows);
    }

    /// A row that is gone stays gone: no operation brings back a row under
    /// its identifier, and no claim hands it out.
    pub proof fn lemma_gone_forever(
        self,
        id: nat,
        other: nat,
        issue_id: Uuid,
        recipient_email: Seq<char>,
        task: TaskView,
    )
        requires
            self.wf(),
            self.gone(id),
        ensures
            self.claim().gone(id),
            self.release(other).gone(id),
            self.delete(other, issue_id, recipient_email).gone(id),
            self.enqueue(task).gone(id),
            self.requeue(other, task).gone(id),
            self.has_pending() ==> self.next_claim().row_id != id,
    {
        assert forall|k: int| !self.is_at(id, k) by {}
        let claimed = self.claim();
        assert forall|k: int| !claimed.is_at(id, k) by {
            assert(!self.is_at(id, k));
        }
        let released = self.release(other);
        assert forall|k: int| !released.is_at(id, k) by {
            assert(!self.is_at(id, k));
        }
        let deleted = self.delete(other, issue_id, recipient_email);
        assert forall|k: int| !deleted.is_at(id, k) by {
            assert(!self.is_at(id, k));
            assert(!self.is_at(id, k + 1));
        }
        let added = self.enqueue(task);
        assert forall|k: int| !added.is_at(id, k) by {
            assert(!self.is_at(id, k));
        }
        let replaced = self.requeue(other, task);
        let removed = self.delete(other, task.issue_id, task.recipient_email);
        assert forall|k: int| !removed.is_at(id, k) by {
            assert(!self.is_at(id, k));
            assert(!self.is_at(id, k + 1));
        }
        assert forall|k: int| !replaced.is_at(id, k) by {
            assert(!self.is_at(id, k));
            assert(!removed.is_at(id, k));
        }
        if self.has_pending() {
            let i = self.first_pending();
            assert(self.is_first_pending(i));
            assert(!self.is_at(id, i));
        }
    }

    /// There is one oldest unheld row at most.
    pub proof fn lemma_first_pending_is(self, i: int)
        requires
            self.is_first_pending(i),
        ensures
            self.has_pending(),
            self.first_pending() == i,
    {
        let k = self.first_pending();
        assert(self.is_first_pending(k));
        if k < i {
            assert(self.rows[k].claimed);
        } else if i < k {
            assert(self.rows[i].claimed);
        }
    }

    /// A row is found under its identifier at one index only.
    pub proof fn lemma_index_of_is(self, id: nat, i: int)
        requires
            self.wf(),
            self.is_at(id, i),
        ensures
            self.contains(id),
            self.index_of(id) == i,
    {
        let k = self.index_of(id);
        assert(self.is_at(id, k));
        if k < i {
            assert(self.rows[k].id < self.rows[i].id);
        } else if i < k {
            assert(self.rows[i].id < self.rows[k].id);
        }
    }
}

struct Row {
    id: u64,
    claimed: bool,
    task: DeliveryTask,
}

impl View for Row {
    type V = RowView;

    closed spec fn view(&self) -> RowView {
        RowView { id: self.id as nat, claimed: self.claimed, task: self.task@ }
    }
}

/// The exclusive hold of one worker on one row of the queue. It is handed out
/// by `claim_one` and used up by the operation that settles it or lets go of
/// it; a claim that is merely dropped leaves its row held.
#[must_use]
pub struct ClaimedTask {
    row_id: u64,
    task: DeliveryTask,
}

impl View for ClaimedTask {
    type V = ClaimView;

    closed spec fn view(&self) -> ClaimView {
        ClaimView { row_id: self.row_id as nat, task: self.task@ }
    }
}

impl ClaimedTask {
    /// The task in the claimed row.
    pub fn task(&self) -> (task: &DeliveryTask)
        ensures
            task@ == self@.task,
    {
        &self.task
    }
}

/// The queue of pending deliveries.
pub struct TaskStore {
    rows: Vec<Row>,
    next_id: u64,
}

impl View for TaskStore {
    type V = QueueView;

    closed spec fn view(&self) -> QueueView {
        QueueView { rows: rows_view(self.rows@), next_id: self.next_id as nat }
    }
}

spec fn rows_view(rows: Seq<Row>) -> Seq<RowView> {
    rows.map_values(|row: Row| row@)
}

impl TaskStore {
    /// Every queue is well formed.
    #[verifier::type_invariant]
    pub open spec fn well_formed(self) -> bool {
        self@.wf()
    }

    /// A queue without rows.
    pub fn new() -> (store: Self)
        ensures
            store@ == QueueView::empty(),
            store@.wf(),
    {
        let store = TaskStore { rows: Vec::new(), next_id: 0 };
        assert(store@.rows =~= Seq::empty());
        store
    }

    /// The number of rows, held or not.
    pub fn len(&self) -> (n: usize)
        ensures
            n == self@.rows.len(),
    {
        self.rows.len()
    }

    /// The tasks of all rows, oldest first.
    pub fn tasks(&self) -> (tasks: Vec<DeliveryTask>)
        ensures
            tasks@.len() == self@.rows.len(),
            forall|i: int| 0 <= i < tasks@.len() ==> (#[trigger] tasks@[i])@ == self@.rows[i].task,
    {
        let mut tasks: Vec<DeliveryTask> = Vec::new();
        let mut i: usize = 0;
        while i < self.rows.len()
            invariant
                0 <= i <= self.rows.len(),
                tasks@.len() == i,
                forall|k: int| 0 <= k < i ==> (#[trigger] tasks@[k])@ == self@.rows[k].task,
            decreases self.rows.len() - i,
        {
            tasks.push(self.rows[i].task.clone());
            i += 1;
        }
        tasks
    }

    fn first_pending_index(&self) -> (found: Option<usize>)
        ensures
            found is Some == self@.has_pending(),
            found matches Some(i) ==> i == self@.first_pending(),
    {
        let mut i: usize = 0;
        while i < self.rows.len()
            invariant
                0 <= i <= self.rows.len(),
                forall|j: int| 0 <= j < i ==> (#[trigger] self@.rows[j]).claimed,
            decreases self.rows.len() - i,
        {
            if !self.rows[i].claimed {
                proof {
                    self@.lemma_first_pending_is(i as int);
                }
                return Some(i);
            }
            i += 1;
        }
        assert forall|k: int| !self@.is_first_pending(k) by {
            if 0 <= k < self@.rows.len() {
                assert(self@.rows[k].claimed);
            }
        }
        None
    }

    fn position(&self, id: u64) -> (found: Option<usize>)
        requires
            self@.wf(),
        ensures
            found is Some == self@.contains(id as nat),
            found matches Some(i) ==> i == self@.index_of(id as nat),
    {
        let mut i: usize = 0;
        while i < self.rows.len()
            invariant
                self@.wf(),
                0 <= i <= self.rows.len(),
                forall|j: int| 0 <= j < i ==> (#[trigger] self@.rows[j]).id != id,
            decreases self.rows.len() - i,
        {
            if self.rows[i].id == id {
                proof {
                    self@.lemma_index_of_is(id as nat, i as int);
                }
                return Some(i);
            }
            i += 1;
        }
        assert forall|k: int| !self@.is_at(id as nat, k) by {
            if 0 <= k < self@.rows.len() {
                assert(self@.rows[k].id != id);
            }
        }
        None
    }

    /// Takes the rows out, so that they can be changed before they are put back.
    fn take_rows(&mut self) -> (rows: Vec<Row>)
        ensures
            rows_view(rows@) == old(self)@.rows,
            rows@.len() == old(self)@.rows.len(),
            final(self).rows@.len() == 0,
            final(self).next_id == old(self).next_id,
    {
        proof {
            use_type_invariant(&*self);
        }
        let mut rows: Vec<Row> = Vec::new();
        std::mem::swap(&mut rows, &mut self.rows);
        rows
    }

    /// Claims the oldest row that no claim holds, without waiting for a held
    /// one: where every row is held the queue looks empty.
    pub fn claim_one(&mut self) -> (claim: Option<ClaimedTask>)
        ensures
            claim is Some == old(self)@.has_pending(),
            claim matches Some(c) ==> c@ == old(self)@.next_claim(),
            final(self)@ == old(self)@.claim(),
            final(self)@.wf(),
    {
        proof {
            use_type_invariant(&*self);
        }
        match self.first_pending_index() {
            None => None,
            Some(i) => {
                let mut rows = self.take_rows();
                rows[i].claimed = true;
                let claim = ClaimedTask { row_id: rows[i].id, task: rows[i].task.clone() };
                proof {
                    old(self)@.lemma_marked_wf(i as int, true);
                    assert(rows_view(rows@) =~= old(self)@.marked(i as int, true).rows);
                }
                self.rows = rows;
                Some(claim)
            },
        }
    }
    /// Settles `claim` by deleting under the given keys: the claimed row is
    /// removed if it is kept under them, and let go if it is not. Fails, and
    /// changes nothing, where the claim holds no row of this queue.
    pub fn delete(&mut self, claim: ClaimedTask, issue_id: Uuid, recipient_email: &str) -> (done:
        Result<(), StorageError>)
        ensures
            done is Ok == old(self)@.holds(claim@.row_id),
            done matches Err(e) ==> e == StorageError::ClaimLost,
            final(self)@ == old(self)@.delete(claim@.row_id, issue_id, recipient_email@),
            final(self)@.wf(),
    {
        proof {
            use_type_invariant(&*self);
        }
        let i = match self.position(claim.row_id) {
            Some(i) => i,
            None => {
                return Err(StorageError::ClaimLost);
            },
        };
        if !self.rows[i].claimed {
            return Err(StorageError::ClaimLost);
        }
        let keyed = same_issue(&self.rows[i].task.issue_id, &issue_id) && same_text(
            self.rows[i].task.recipient_email.as_str(),
            recipient_email,
        );
        let mut rows = self.take_rows();
        if keyed {
            rows.remove(i);
            proof {
                old(self)@.lemma_remove_wf(i as int);
                assert(rows_view(rows@) =~= old(self)@.rows.remove(i as int));
            }
        } else {
            rows[i].claimed = false;
            proof {
                old(self)@.lemma_marked_wf(i as int, false);
                assert(rows_view(rows@) =~= old(self)@.marked(i as int, false).rows);
            }
        }
        self.rows = rows;
        Ok(())
    }

    /// Lets go of `claim` without settling it: the row stays in the queue and
    /// can be claimed again.
    pub fn release(&mut self, claim: ClaimedTask)
        ensures
            final(self)@ == old(self)@.release(claim@.row_id),
            final(self)@.wf(),
    {
        proof {
            use_type_invariant(&*self);
        }
        if let Some(i) = self.position(claim.row_id) {
            if self.rows[i].claimed {
                let mut rows = self.take_rows();
                rows[i].claimed = false;
                proof {
                    old(self)@.lemma_marked_wf(i as int, false);
                    assert(rows_view(rows@) =~= old(self)@.marked(i as int, false).rows);
                }
                self.rows = rows;
            }
        }
    }

    /// Adds a task as the youngest row, held by nobody. Fails, and changes
    /// nothing, where the queue has no identifier left.
    pub fn enqueue(
        &mut self,
        issue_id: Uuid,
        recipient_email: &str,
        retry_count: u16,
        not_before: u16,
    ) -> (done: Result<(), StorageError>)
        ensures
            done is Ok == old(self)@.has_room(),
            done matches Err(e) ==> e == StorageError::QueueFull,
            final(self)@ == old(self)@.enqueue(
                TaskView {
                    issue_id,
                    recipient_email: recipient_email@,
                    retry_count: retry_count as nat,
                    not_before: not_before as nat,
                },
            ),
            final(self)@.wf(),
    {
        proof {
            use_type_invariant(&*self);
        }
        if self.next_id == u64::MAX {
            return Err(StorageError::QueueFull);
        }
        let task = DeliveryTask::new(issue_id, recipient_email.to_owned(), retry_count, not_before);
        let mut rows = self.take_rows();
        rows.push(Row { id: self.next_id, claimed: false, task });
        proof {
            old(self)@.lemma_enqueue_wf(task@);
            assert(rows_view(rows@) =~= old(self)@.enqueue(task@).rows);
        }
        self.next_id = self.next_id + 1;
        self.rows = rows;
        Ok(())
    }

    /// Settles `claim` by putting `successor` in the place of the claimed row,
    /// in one step: the row is deleted under the successor's keys and the
    /// successor is added. Where the queue has no identifier left the claim is
    /// let go and nothing else changes; where the claim holds no row of this
    /// queue nothing changes at all.
    pub fn requeue(&mut self, claim: ClaimedTask, successor: DeliveryTask) -> (done: Result<
        (),
        StorageError,
    >)
        ensures
            done is Ok == (old(self)@.holds(claim@.row_id) && old(self)@.has_room()),
            done matches Err(e) ==> e == (if old(self)@.holds(claim@.row_id) {
                StorageError::QueueFull
            } else {
                StorageError::ClaimLost
            }),
            final(self)@ == old(self)@.requeue(claim@.row_id, successor@),
            final(self)@.wf(),
    {
        proof {
            use_type_invariant(&*self);
        }
        let i = match self.position(claim.row_id) {
            Some(i) => i,
            None => {
                return Err(StorageError::ClaimLost);
            },
        };
        if !self.rows[i].claimed {
            return Err(StorageError::ClaimLost);
        }
        if self.next_id == u64::MAX {
            self.release(claim);
            return Err(StorageError::QueueFull);
        }
        let keyed = same_issue(&self.rows[i].task.issue_id, &successor.issue_id)
            && self.rows[i].task.recipient_email == successor.recipient_email;
        let ghost deleted = old(self)@.delete(
            claim@.row_id,
            successor@.issue_id,
            successor@.recipient_email,
        );
        let mut rows = self.take_rows();
        if keyed {
            rows.remove(i);
            proof {
                old(self)@.lemma_remove_wf(i as int);
                assert(rows_view(rows@) =~= deleted.rows);
            }
        } else {
            rows[i].claimed = false;
            proof {
                old(self)@.lemma_marked_wf(i as int, false);
                assert(rows_view(rows@) =~= deleted.rows);
            }
        }
        rows.push(Row { id: self.next_id, claimed: false, task: successor });
        proof {
            deleted.lemma_enqueue_wf(successor@);
            assert(rows_view(rows@) =~= deleted.enqueue(successor@).rows);
        }
        self.next_id = self.next_id + 1;
        self.rows = rows;
        Ok(())
    }
}

} // verus!
