//! Plan counts by status.

use vstd::prelude::*;
use crate::status::PlanStatus;

verus! {

/// Detailed information on plan states.
#[derive(Clone, Debug, PartialEq, Eq)]
pub struct PlanCounts {
    /// Number of draft plans.
    pub draft: usize,
    /// Number of approved plans.
    pub approved: usize,
    /// Number of in-progress plans.
    pub in_progress: usize,
    /// Number of completed plans.
    pub completed: usize,
    /// Number of archived plans.
    pub archived: usize,
}

/// How often `status` occurs in `statuses`.
pub open spec fn occurrences(statuses: Seq<PlanStatus>, status: PlanStatus) -> nat
    decreases statuses.len(),
{
    if statuses.len() == 0 {
        0
    } else {
        occurrences(statuses.drop_last(), status) + if statuses.last() == status {
            1nat
        } else {
            0nat
        }
    }
}

/// Each status of `statuses` is one of the five, so the five counts add up
/// to the length.
pub proof fn lemma_occurrences_add_up(statuses: Seq<PlanStatus>)
    ensures
        occurrences(statuses, PlanStatus::Draft) + occurrences(statuses, PlanStatus::Approved)
            + occurrences(statuses, PlanStatus::InProgress) + occurrences(
            statuses,
            PlanStatus::Completed,
        ) + occurrences(statuses, PlanStatus::Archived) == statuses.len(),
    decreases statuses.len(),
{
    if statuses.len() > 0 {
        lemma_occurrences_add_up(statuses.drop_last());
    }
}

impl Default for PlanCounts {
    fn default() -> (c: PlanCounts)
        ensures
            c == (PlanCounts { draft: 0, approved: 0, in_progress: 0, completed: 0, archived: 0 }),
    {
        PlanCounts { draft: 0, approved: 0, in_progress: 0, completed: 0, archived: 0 }
    }
}

impl PlanCounts {
    /// The number of plans that are not archived, as a mathematical integer.
    pub open spec fn spec_active(&self) -> int {
        self.draft + self.approved + self.in_progress + self.completed
    }

    /// The number of plans in any state, as a mathematical integer.
    pub open spec fn spec_total(&self) -> int {
        self.spec_active() + self.archived
    }

    /// Total count. The sum must fit the machine's word.
    pub fn total(&self) -> (n: usize)
        requires
            self.spec_total() <= usize::MAX,
        ensures
            n == self.spec_total(),
    {
        self.draft + self.approved + self.in_progress + self.completed + self.archived
    }

    /// Active count (not archived). The sum must fit the machine's word.
    pub fn active(&self) -> (n: usize)
        requires
            self.spec_active() <= usize::MAX,
        ensures
            n == self.spec_active(),
    {
        self.draft + self.approved + self.in_progress + self.completed
    }

    /// Plans count by state: how many of `statuses` are each of the five.
    pub fn from_statuses(statuses: &[PlanStatus]) -> (c: PlanCounts)
        ensures
            c.draft == occurrences(statuses@, PlanStatus::Draft),
            c.approved == occurrences(statuses@, PlanStatus::Approved),
            c.in_progress == occurrences(statuses@, PlanStatus::InProgress),
            c.completed == occurrences(statuses@, PlanStatus::Completed),
            c.archived == occurrences(statuses@, PlanStatus::Archived),
            c.spec_total() == statuses@.len(),
    {
        let mut c = PlanCounts { draft: 0, approved: 0, in_progress: 0, completed: 0, archived: 0 };
        let mut i: usize = 0;
        while i < statuses.len()
            invariant
                i <= statuses@.len(),
                c.draft == occurrences(statuses@.take(i as int), PlanStatus::Draft),
                c.approved == occurrences(statuses@.take(i as int), PlanStatus::Approved),
                c.in_progress == occurrences(statuses@.take(i as int), PlanStatus::InProgress),
                c.completed == occurrences(statuses@.take(i as int), PlanStatus::Completed),
                c.archived == occurrences(statuses@.take(i as int), PlanStatus::Archived),
                c.spec_total() == i,
            decreases statuses@.len() - i,
        {
            proof {
                assert(statuses@.take(i + 1).drop_last() =~= statuses@.take(i as int));
                assert(statuses@.take(i + 1).last() == statuses@[i as int]);
            }
            match statuses[i] {
                PlanStatus::Draft => {
                    c.draft += 1;
                },
                PlanStatus::Approved => {
                    c.approved += 1;
                },
                PlanStatus::InProgress => {
                    c.in_progress += 1;
                },
                PlanStatus::Completed => {
                    c.completed += 1;
                },
                PlanStatus::Archived => {
                    c.archived += 1;
                },
            }
            i += 1;
        }
        assert(statuses@.take(i as int) =~= statuses@);
        c
    }
}

} // verus!
