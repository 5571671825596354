//! Plan actions that can be applied to the plan state.

use vstd::prelude::*;
use radicle::cob::{Embed, Uri};
use crate::common::{Label, Title};
use crate::ids::{CommentId, Did, ObjectId, Oid, TaskId};
use crate::keyset::{KeySet, SetItem};
use crate::status::PlanStatus;

verus! {

/// serde_json's `Value`: any JSON value. The one action that holds one
/// does not read it.
#[verifier::external_type_specification]
#[verifier::external_body]
pub struct ExValue(serde_json::Value);

/// `Value::clone`: a copy of a JSON value. Nothing is said of it.
pub assume_specification[ <serde_json::Value as Clone>::clone ](v: &serde_json::Value) -> (r:
    serde_json::Value);

/// Plan action. Represents all possible mutations to a plan's state.
///
/// An optional field of an edit that is absent leaves what it names as it
/// is; one that is present replaces it. Where what it names may itself be
/// absent, present-with-nothing clears it.
#[derive(Debug, PartialEq, Eq, Clone)]
#[allow(inconsistent_fields)]
pub enum Action {
    /// Open a new plan (initial action).
    Open {
        /// Plan title.
        title: String,
        /// Plan description.
        description: String,
        /// Embedded content.
        embeds: Vec<Embed<Uri>>,
    },
    /// Edit the plan title.
    EditTitle {
        /// New title.
        title: Title,
    },
    /// Edit the plan description.
    EditDescription {
        /// New description.
        description: String,
        /// Embedded content. It goes with the entry that holds the action:
        /// a plan keeps its description and no list of what is embedded.
        embeds: Vec<Embed<Uri>>,
    },
    /// Set the plan status.
    SetStatus {
        /// New status.
        status: PlanStatus,
    },
    /// Add a task to the plan.
    AddTask {
        /// Task subject/title.
        subject: String,
        /// Optional detailed description.
        description: Option<String>,
        /// Optional time estimate (e.g., "2h", "1d").
        estimate: Option<String>,
        /// Files affected by the task.
        affected_files: Vec<String>,
    },
    /// Edit an existing task.
    EditTask {
        /// Task ID to edit.
        task_id: TaskId,
        /// New subject (if changing).
        subject: Option<String>,
        /// New description (if changing).
        description: Option<Option<String>>,
        /// New estimate (if changing).
        estimate: Option<Option<String>>,
        /// New affected files (if changing).
        affected_files: Option<Vec<String>>,
    },
    /// Set a task's status (legacy: kept so that old logs still decode,
    /// applied as a no-op).
    SetTaskStatus {
        /// Task ID.
        task_id: TaskId,
        /// Legacy status value (ignored on apply).
        status: serde_json::Value,
    },
    /// Link a task to a commit (marks the task as done).
    LinkTaskToCommit {
        /// Task ID.
        task_id: TaskId,
        /// Commit that completes the task.
        commit: Oid,
    },
    /// Remove a task from the plan.
    RemoveTask {
        /// Task ID to remove.
        task_id: TaskId,
    },
    /// Reorder tasks in the plan.
    ReorderTasks {
        /// New task order (task IDs).
        task_ids: Vec<TaskId>,
    },
    /// Set which tasks block a given task.
    SetTaskBlockedBy {
        /// Task ID.
        task_id: TaskId,
        /// IDs of blocking tasks.
        blocked_by: Vec<TaskId>,
    },
    /// Link an issue to the plan.
    LinkIssue {
        /// Issue object ID.
        issue_id: ObjectId,
    },
    /// Unlink an issue from the plan.
    UnlinkIssue {
        /// Issue object ID.
        issue_id: ObjectId,
    },
    /// Link a patch to the plan.
    LinkPatch {
        /// Patch object ID.
        patch_id: ObjectId,
    },
    /// Unlink a patch from the plan.
    UnlinkPatch {
        /// Patch object ID.
        patch_id: ObjectId,
    },
    /// Link a task to a specific issue.
    LinkTaskToIssue {
        /// Task ID.
        task_id: TaskId,
        /// Issue to link.
        issue_id: ObjectId,
    },
    /// Add a critical file path.
    AddCriticalFile {
        /// File path.
        path: String,
    },
    /// Remove a critical file path.
    RemoveCriticalFile {
        /// File path.
        path: String,
    },
    /// Comment on the plan.
    Comment {
        /// Comment body.
        body: String,
        /// Comment this is a reply to.
        reply_to: Option<CommentId>,
        /// Embedded content.
        embeds: Vec<Embed<Uri>>,
    },
    /// Edit a comment.
    CommentEdit {
        /// Comment being edited.
        id: CommentId,
        /// New value for the comment body.
        body: String,
        /// New value for the embeds list.
        embeds: Vec<Embed<Uri>>,
    },
    /// Redact a comment.
    CommentRedact {
        /// Comment to redact.
        id: CommentId,
    },
    /// Modify plan labels.
    Label {
        /// New set of labels.
        labels: KeySet<Label>,
    },
    /// Assign users to the plan.
    Assign {
        /// New set of assignees.
        assignees: KeySet<Did>,
    },
}

impl Action {
    /// What an action must satisfy: the sets it carries are well formed.
    pub open spec fn wf(&self) -> bool {
        match self {
            Action::Label { labels } => labels.wf(),
            Action::Assign { assignees } => assignees.wf(),
            _ => true,
        }
    }

    /// Whether the action is one of the three that change the discussion
    /// thread.
    pub open spec fn touches_thread(&self) -> bool {
        self is Comment || self is CommentEdit || self is CommentRedact
    }

    /// The string that marks the action's kind where actions are written
    /// down.
    pub open spec fn tag(&self) -> Seq<char> {
        match self {
            Action::Open { .. } => "open"@,
            Action::EditTitle { .. } => "edit.title"@,
            Action::EditDescription { .. } => "edit.description"@,
            Action::SetStatus { .. } => "status"@,
            Action::AddTask { .. } => "task.add"@,
            Action::EditTask { .. } => "task.edit"@,
            Action::SetTaskStatus { .. } => "task.status"@,
            Action::LinkTaskToCommit { .. } => "task.linkCommit"@,
            Action::RemoveTask { .. } => "task.remove"@,
            Action::ReorderTasks { .. } => "task.reorder"@,
            Action::SetTaskBlockedBy { .. } => "task.blockedBy"@,
            Action::LinkIssue { .. } => "link.issue"@,
            Action::UnlinkIssue { .. } => "unlink.issue"@,
            Action::LinkPatch { .. } => "link.patch"@,
            Action::UnlinkPatch { .. } => "unlink.patch"@,
            Action::LinkTaskToIssue { .. } => "task.linkIssue"@,
            Action::AddCriticalFile { .. } => "criticalFile.add"@,
            Action::RemoveCriticalFile { .. } => "criticalFile.remove"@,
            Action::Comment { .. } => "comment"@,
            Action::CommentEdit { .. } => "comment.edit"@,
            Action::CommentRedact { .. } => "comment.redact"@,
            Action::Label { .. } => "label"@,
            Action::Assign { .. } => "assign"@,
        }
    }

    /// The string that marks the action's kind where actions are written
    /// down.
    pub fn type_tag(&self) -> (s: &'static str)
        ensures
            s@ == self.tag(),
    {
        match self {
            Action::Open { .. } => "open",
            Action::EditTitle { .. } => "edit.title",
            Action::EditDescription { .. } => "edit.description",
            Action::SetStatus { .. } => "status",
            Action::AddTask { .. } => "task.add",
            Action::EditTask { .. } => "task.edit",
            Action::SetTaskStatus { .. } => "task.status",
            Action::LinkTaskToCommit { .. } => "task.linkCommit",
            Action::RemoveTask { .. } => "task.remove",
            Action::ReorderTasks { .. } => "task.reorder",
            Action::SetTaskBlockedBy { .. } => "task.blockedBy",
            Action::LinkIssue { .. } => "link.issue",
            Action::UnlinkIssue { .. } => "unlink.issue",
            Action::LinkPatch { .. } => "link.patch",
            Action::UnlinkPatch { .. } => "unlink.patch",
            Action::LinkTaskToIssue { .. } => "task.linkIssue",
            Action::AddCriticalFile { .. } => "criticalFile.add",
            Action::RemoveCriticalFile { .. } => "criticalFile.remove",
            Action::Comment { .. } => "comment",
            Action::CommentEdit { .. } => "comment.edit",
            Action::CommentRedact { .. } => "comment.redact",
            Action::Label { .. } => "label",
            Action::Assign { .. } => "assign",
        }
    }

    /// The action that gives a plan the labels of `labels`, each once.
    pub fn label(labels: Vec<Label>) -> (a: Action)
        ensures
            a.wf(),
            a is Label,
            a->Label_labels@.to_set() == Seq::new(labels@.len(), |i: int| labels@[i].key()).to_set(),
    {
        Action::Label { labels: KeySet::from_vec(labels) }
    }

    /// The action that assigns a plan to those of `assignees`, each once.
    pub fn assign(assignees: Vec<Did>) -> (a: Action)
        ensures
            a.wf(),
            a is Assign,
            a->Assign_assignees@.to_set() == Seq::new(
                assignees@.len(),
                |i: int| assignees@[i].key(),
            ).to_set(),
    {
        Action::Assign { assignees: KeySet::from_vec(assignees) }
    }

    /// Whether applying the action gives something an id of its own: a
    /// comment does, and a new task.
    pub fn produces_identifier(&self) -> (b: bool)
        ensures
            b == (self is Comment || self is AddTask),
    {
        match self {
            Action::Comment { .. } => true,
            Action::AddTask { .. } => true,
            _ => false,
        }
    }
}

} // verus!
