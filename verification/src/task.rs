//! Tasks of a plan.

use vstd::prelude::*;
use radicle::cob::Timestamp;
use crate::ids::{ActorId, Did, ObjectId, Oid, TaskId};
use crate::text::{copy_opt, copy_str, copy_strings, opt_text, texts};

verus! {

/// A task within a plan.
///
/// A task has no status of its own: it is done when it is linked to a
/// commit, and only then.
#[derive(Debug, Clone, PartialEq, Eq)]
pub struct Task {
    /// Unique identifier (entry ID that created the task).
    pub id: TaskId,
    /// Task subject/title.
    pub subject: String,
    /// Optional detailed description.
    pub description: Option<String>,
    /// Optional time estimate.
    pub estimate: Option<String>,
    /// Tasks that must be completed before this one.
    pub blocked_by: Vec<TaskId>,
    /// Files affected by the task.
    pub affected_files: Vec<String>,
    /// Linked issue (if task was converted to an issue).
    pub linked_issue: Option<ObjectId>,
    /// Linked commit: when present, the task is considered done.
    pub linked_commit: Option<Oid>,
    /// Author who created the task.
    pub author: Did,
    /// When the task was created.
    pub created_at: Timestamp,
}

/// A [`Task`] as a mathematical value.
pub struct TaskView {
    pub id: TaskId,
    pub subject: Seq<char>,
    pub description: Option<Seq<char>>,
    pub estimate: Option<Seq<char>>,
    pub blocked_by: Seq<TaskId>,
    pub affected_files: Seq<Seq<char>>,
    pub linked_issue: Option<ObjectId>,
    pub linked_commit: Option<Oid>,
    pub author: Did,
    pub created_at: Timestamp,
}

impl TaskView {
    /// A task is done when it is linked to a commit, and only then.
    pub open spec fn is_done(self) -> bool {
        self.linked_commit is Some
    }

    /// A task is blocked when it names a task that must be completed first.
    pub open spec fn is_blocked(self) -> bool {
        self.blocked_by.len() > 0
    }

    /// A task as it is when it is created: blocked by nothing, linked to
    /// nothing.
    pub open spec fn created(
        id: TaskId,
        subject: Seq<char>,
        description: Option<Seq<char>>,
        estimate: Option<Seq<char>>,
        affected_files: Seq<Seq<char>>,
        author: ActorId,
        timestamp: Timestamp,
    ) -> TaskView {
        TaskView {
            id,
            subject,
            description,
            estimate,
            blocked_by: Seq::empty(),
            affected_files,
            linked_issue: None,
            linked_commit: None,
            author: Did { key: author },
            created_at: timestamp,
        }
    }
}

impl View for Task {
    type V = TaskView;

    open spec fn view(&self) -> TaskView {
        TaskView {
            id: self.id,
            subject: self.subject@,
            description: opt_text(self.description),
            estimate: opt_text(self.estimate),
            blocked_by: self.blocked_by@,
            affected_files: texts(self.affected_files@),
            linked_issue: self.linked_issue,
            linked_commit: self.linked_commit,
            author: self.author,
            created_at: self.created_at,
        }
    }
}

/// A copy of a list of ids.
pub fn copy_ids(v: &Vec<Oid>) -> (r: Vec<Oid>)
    ensures
        r@ == v@,
{
    let mut r: Vec<Oid> = Vec::new();
    let mut i: usize = 0;
    while i < v.len()
        invariant
            i <= v@.len(),
            r@.len() == i,
            forall|j: int| 0 <= j < i ==> r@[j] == v@[j],
        decreases v@.len() - i,
    {
        r.push(v[i]);
        i += 1;
    }
    assert(r@ =~= v@);
    r
}

impl Task {
    /// Create a new task.
    pub fn new(
        id: TaskId,
        subject: String,
        description: Option<String>,
        estimate: Option<String>,
        affected_files: Vec<String>,
        author: ActorId,
        timestamp: Timestamp,
    ) -> (task: Task)
        ensures
            task@ == TaskView::created(
                id,
                subject@,
                opt_text(description),
                opt_text(estimate),
                texts(affected_files@),
                author,
                timestamp,
            ),
            !task@.is_done(),
            !task@.is_blocked(),
    {
        Task {
            id,
            subject,
            description,
            estimate,
            blocked_by: Vec::new(),
            affected_files,
            linked_issue: None,
            linked_commit: None,
            author: Did::from_key(author),
            created_at: timestamp,
        }
    }

    /// Check if the task is blocked.
    pub fn is_blocked(&self) -> (b: bool)
        ensures
            b == self@.is_blocked(),
            b == (self.blocked_by@.len() > 0),
    {
        self.blocked_by.len() > 0
    }

    /// Check if the task is done (has a linked commit).
    pub fn is_done(&self) -> (b: bool)
        ensures
            b == self@.is_done(),
            b == (self.linked_commit is Some),
    {
        self.linked_commit.is_some()
    }

    /// A copy of the task.
    pub fn duplicate(&self) -> (task: Task)
        ensures
            task@ == self@,
    {
        Task {
            id: self.id,
            subject: copy_str(self.subject.as_str()),
            description: copy_opt(&self.description),
            estimate: copy_opt(&self.estimate),
            blocked_by: copy_ids(&self.blocked_by),
            affected_files: copy_strings(&self.affected_files),
            linked_issue: self.linked_issue,
            linked_commit: self.linked_commit,
            author: self.author,
            created_at: self.created_at,
        }
    }
}

} // verus!
