//! Plan status.

use vstd::prelude::*;
use crate::text::{concat2, copy_str, lowercase, str_eq, to_lowercase};

verus! {

/// Plan status.
///
/// The statuses are ordered: Draft, Approved, InProgress, Completed,
/// Archived. A plan may move from any status to any other.
#[derive(Debug, Clone, Copy, PartialEq, Eq, Structural, PartialOrd, Ord, Hash)]
pub enum PlanStatus {
    /// Plan is in draft mode, still being designed.
    Draft,
    /// Plan has been approved and is ready for implementation.
    Approved,
    /// Plan implementation is in progress.
    InProgress,
    /// Plan has been fully implemented.
    Completed,
    /// Plan has been archived (no longer active).
    Archived,
}

impl Default for PlanStatus {
    fn default() -> (s: PlanStatus)
        ensures
            s == PlanStatus::Draft,
    {
        PlanStatus::Draft
    }
}

/// The status that a lower-case name stands for, if any.
pub open spec fn status_named(name: Seq<char>) -> Option<PlanStatus> {
    if name == "draft"@ {
        Some(PlanStatus::Draft)
    } else if name == "approved"@ {
        Some(PlanStatus::Approved)
    } else if name == "in-progress"@ || name == "inprogress"@ || name == "in_progress"@ {
        Some(PlanStatus::InProgress)
    } else if name == "completed"@ || name == "done"@ {
        Some(PlanStatus::Completed)
    } else if name == "archived"@ {
        Some(PlanStatus::Archived)
    } else {
        None
    }
}

/// The status that a lower-case name stands for when the name is read
/// leniently: a few more spellings are taken, and an unknown name is Draft.
pub open spec fn status_named_leniently(name: Seq<char>) -> PlanStatus {
    if name == "complete"@ {
        PlanStatus::Completed
    } else if name == "archive"@ {
        PlanStatus::Archived
    } else {
        match status_named(name) {
            Some(s) => s,
            None => PlanStatus::Draft,
        }
    }
}

impl PlanStatus {
    /// The position of the status in the order of statuses.
    pub open spec fn rank(self) -> nat {
        match self {
            PlanStatus::Draft => 0,
            PlanStatus::Approved => 1,
            PlanStatus::InProgress => 2,
            PlanStatus::Completed => 3,
            PlanStatus::Archived => 4,
        }
    }

    /// The name under which the status is shown.
    pub open spec fn name(self) -> Seq<char> {
        match self {
            PlanStatus::Draft => "draft"@,
            PlanStatus::Approved => "approved"@,
            PlanStatus::InProgress => "in-progress"@,
            PlanStatus::Completed => "completed"@,
            PlanStatus::Archived => "archived"@,
        }
    }

    /// The name under which the status is shown.
    pub fn to_string(&self) -> (s: String)
        ensures
            s@ == self.name(),
    {
        match self {
            PlanStatus::Draft => copy_str("draft"),
            PlanStatus::Approved => copy_str("approved"),
            PlanStatus::InProgress => copy_str("in-progress"),
            PlanStatus::Completed => copy_str("completed"),
            PlanStatus::Archived => copy_str("archived"),
        }
    }

    /// The status that the lower-case name `lowered` stands for.
    pub fn from_name(lowered: &str) -> (r: Option<PlanStatus>)
        ensures
            r == status_named(lowered@),
    {
        if str_eq(lowered, "draft") {
            Some(PlanStatus::Draft)
        } else if str_eq(lowered, "approved") {
            Some(PlanStatus::Approved)
        } else if str_eq(lowered, "in-progress") || str_eq(lowered, "inprogress") || str_eq(
            lowered,
            "in_progress",
        ) {
            Some(PlanStatus::InProgress)
        } else if str_eq(lowered, "completed") || str_eq(lowered, "done") {
            Some(PlanStatus::Completed)
        } else if str_eq(lowered, "archived") {
            Some(PlanStatus::Archived)
        } else {
            None
        }
    }

    /// Reads a status, whatever the case of its letters. A name that stands
    /// for no status is an error, whose message quotes the name.
    pub fn parse(s: &str) -> (r: Result<PlanStatus, String>)
        ensures
            match status_named(lowercase(s@)) {
                Some(status) => r == Ok::<PlanStatus, String>(status),
                None => r is Err && r->Err_0@ == "unknown plan status: "@ + s@,
            },
    {
        let lowered = to_lowercase(s);
        match PlanStatus::from_name(lowered.as_str()) {
            Some(status) => Ok(status),
            None => Err(concat2("unknown plan status: ", s)),
        }
    }
}

impl std::str::FromStr for PlanStatus {
    type Err = String;

    /// Reads a status, as [`PlanStatus::parse`] does: whatever the case of
    /// its letters, and with an error that quotes a name that stands for no
    /// status.
    fn from_str(s: &str) -> (r: Result<Self, Self::Err>)
        ensures
            match status_named(lowercase(s@)) {
                Some(status) => r is Ok && r->Ok_0 == status,
                None => r is Err && r->Err_0@ == "unknown plan status: "@ + s@,
            },
    {
        PlanStatus::parse(s)
    }
}

/// The status that the lower-case name `lowered` stands for, read leniently.
pub fn plan_status_from_name(lowered: &str) -> (r: PlanStatus)
    ensures
        r == status_named_leniently(lowered@),
{
    if str_eq(lowered, "complete") {
        PlanStatus::Completed
    } else if str_eq(lowered, "archive") {
        PlanStatus::Archived
    } else {
        match PlanStatus::from_name(lowered) {
            Some(s) => s,
            None => PlanStatus::Draft,
        }
    }
}

/// Reads a status leniently, whatever the case of its letters: an unknown
/// name is taken for Draft.
pub fn parse_plan_status(s: &str) -> (r: PlanStatus)
    ensures
        r == status_named_leniently(lowercase(s@)),
{
    let lowered = to_lowercase(s);
    plan_status_from_name(lowered.as_str())
}

} // verus!
