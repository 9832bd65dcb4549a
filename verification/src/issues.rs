//! The repository of published issues, kept in memory.
//!
//! An issue is published once under its identifier and never changed or
//! removed afterwards; the worker only reads it.

use crate::ident::same_issue;
use crate::task::{Issue, IssueView, StorageError};
use uuid::Uuid;
use vstd::prelude::*;

verus! {

struct Entry {
    issue_id: Uuid,
    issue: Issue,
}

/// The published issues, each under its identifier.
pub struct IssueRepository {
    entries: Vec<Entry>,
}

/// Entry `i` is kept under `issue_id`.
spec fn kept_at(entries: Seq<Entry>, issue_id: Uuid, i: int) -> bool {
    0 <= i < entries.len() && entries[i].issue_id == issue_id
}

/// No identifier stands in two entries.
spec fn distinct(entries: Seq<Entry>) -> bool {
    forall|i: int, j: int|
        0 <= i < j < entries.len() ==> (#[trigger] entries[i]).issue_id != (
        #[trigger] entries[j]).issue_id
}

spec fn as_map(entries: Seq<Entry>) -> Map<Uuid, IssueView> {
    Map::new(
        |issue_id: Uuid| exists|i: int| kept_at(entries, issue_id, i),
        |issue_id: Uuid| entries[choose|i: int| kept_at(entries, issue_id, i)].issue@,
    )
}

proof fn lemma_kept_at(entries: Seq<Entry>, issue_id: Uuid, i: int)
    requires
        distinct(entries),
        kept_at(entries, issue_id, i),
    ensures
        as_map(entries).contains_key(issue_id),
        as_map(entries)[issue_id] == entries[i].issue@,
{
    let k = choose|k: int| kept_at(entries, issue_id, k);
    if k < i {
        assert(entries[k].issue_id != entries[i].issue_id);
    } else if i < k {
        assert(entries[i].issue_id != entries[k].issue_id);
    }
}

impl View for IssueRepository {
    type V = Map<Uuid, IssueView>;

    closed spec fn view(&self) -> Map<Uuid, IssueView> {
        as_map(self.entries@)
    }
}

impl IssueRepository {
    #[verifier::type_invariant]
    spec fn inv(self) -> bool {
        distinct(self.entries@)
    }

    /// A repository without issues.
    pub fn new() -> (repository: Self)
        ensures
            repository@ == Map::<Uuid, IssueView>::empty(),
    {
        let repository = IssueRepository { entries: Vec::new() };
        assert(repository@ =~= Map::<Uuid, IssueView>::empty());
        repository
    }

    fn position(&self, issue_id: Uuid) -> (found: Option<usize>)
        ensures
            found is Some == self@.contains_key(issue_id),
            found matches Some(i) ==> kept_at(self.entries@, issue_id, i as int),
    {
        let mut i: usize = 0;
        while i < self.entries.len()
            invariant
                0 <= i <= self.entries.len(),
                forall|k: int| 0 <= k < i ==> !kept_at(self.entries@, issue_id, k),
            decreases self.entries.len() - i,
        {
            if same_issue(&self.entries[i].issue_id, &issue_id) {
                assert(kept_at(self.entries@, issue_id, i as int));
                return Some(i);
            }
            i += 1;
        }
        None
    }

    /// Publishes `issue` under `issue_id`. Fails, and changes nothing, where
    /// an issue is kept under the identifier already.
    pub fn publish(&mut self, issue_id: Uuid, issue: Issue) -> (done: Result<(), StorageError>)
        ensures
            done is Ok == !old(self)@.contains_key(issue_id),
            done matches Err(e) ==> e == StorageError::IssueExists && final(self)@ == old(self)@,
            done is Ok ==> final(self)@ == old(self)@.insert(issue_id, issue@),
    {
        proof {
            use_type_invariant(&*self);
        }
        if self.position(issue_id).is_some() {
            return Err(StorageError::IssueExists);
        }
        let mut entries: Vec<Entry> = Vec::new();
        std::mem::swap(&mut entries, &mut self.entries);
        entries.push(Entry { issue_id, issue });
        proof {
            let before = old(self).entries@;
            let after = entries@;
            let last = before.len() as int;
            assert forall|i: int, j: int| 0 <= i < j < after.len() implies (#[trigger] after[i]).issue_id
                != (#[trigger] after[j]).issue_id by {
                if j == last {
                    assert(!kept_at(before, issue_id, i));
                } else {
                    assert(before[i].issue_id != before[j].issue_id);
                }
            }
            assert forall|id: Uuid| #[trigger]
                as_map(after).contains_key(id) == old(self)@.insert(issue_id, issue@).contains_key(
                    id,
                ) by {
                if as_map(after).contains_key(id) {
                    let k = choose|k: int| kept_at(after, id, k);
                    if k < last {
                        assert(kept_at(before, id, k));
                    }
                }
                if old(self)@.contains_key(id) {
                    let k = choose|k: int| kept_at(before, id, k);
                    assert(kept_at(after, id, k));
                }
                if id == issue_id {
                    assert(kept_at(after, id, last));
                }
            }
            assert forall|id: Uuid| #[trigger] as_map(after).contains_key(id) implies as_map(after)[id]
                == old(self)@.insert(issue_id, issue@)[id] by {
                if id == issue_id {
                    lemma_kept_at(after, id, last);
                } else {
                    let k = choose|k: int| kept_at(before, id, k);
                    assert(kept_at(before, id, k));
                    lemma_kept_at(before, id, k);
                    assert(kept_at(after, id, k));
                    lemma_kept_at(after, id, k);
                }
            }
            assert(as_map(after) =~= old(self)@.insert(issue_id, issue@));
        }
        self.entries = entries;
        Ok(())
    }

    /// The issue kept under `issue_id`, or the error that says there is none.
    pub fn get(&self, issue_id: Uuid) -> (found: Result<Issue, StorageError>)
        ensures
            found is Ok == self@.contains_key(issue_id),
            found matches Ok(issue) ==> issue@ == self@[issue_id],
            found matches Err(e) ==> e == StorageError::IssueNotFound,
    {
        proof {
            use_type_invariant(self);
        }
        match self.position(issue_id) {
            Some(i) => {
                proof {
                    lemma_kept_at(self.entries@, issue_id, i as int);
                }
                Ok(self.entries[i].issue.clone())
            },
            None => Err(StorageError::IssueNotFound),
        }
    }
}

} // verus!
