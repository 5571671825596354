//! Who may apply which action to a plan.

use vstd::prelude::*;
use crate::actions::Action;
use crate::common::Authorization;
use crate::error::Error;
use crate::identity::Doc;
use crate::ids::{ActorId, CommentId, Did};
use crate::plan::{comment_views, Plan, PlanView};
use crate::ids::EntryId;
use crate::thread::{comments_of, listed, CommentData, CommentView};

verus! {

/// Whether `i` is the place of the first comment of `shown` with the id
/// `id`.
pub open spec fn is_first_comment(shown: Seq<CommentView>, id: CommentId, i: int) -> bool {
    &&& 0 <= i < shown.len()
    &&& shown[i].id == id
    &&& forall|j: int| 0 <= j < i ==> (#[trigger] shown[j]).id != id
}

/// The author of the first comment of `shown` with the id `id`.
pub open spec fn author_of(shown: Seq<CommentView>, id: CommentId) -> Option<ActorId> {
    if exists|i: int| is_first_comment(shown, id, i) {
        Some(shown[choose|i: int| is_first_comment(shown, id, i)].author)
    } else {
        None
    }
}

/// A comment that is shown is held by the thread, not redacted, under the
/// comment's id, which is in the timeline.
pub proof fn lemma_listed(
    timeline: Seq<EntryId>,
    entries: Map<CommentId, Option<CommentView>>,
    k: int,
)
    requires
        0 <= k < listed(timeline, entries).len(),
    ensures
        timeline.contains(listed(timeline, entries)[k].id),
        entries.dom().contains(listed(timeline, entries)[k].id),
        entries[listed(timeline, entries)[k].id] is Some,
        listed(timeline, entries)[k] == (CommentView {
            id: listed(timeline, entries)[k].id,
            ..entries[listed(timeline, entries)[k].id]->Some_0
        }),
    decreases timeline.len(),
{
    let shorter = timeline.drop_last();
    let before = listed(shorter, entries);
    if k < before.len() {
        lemma_listed(shorter, entries, k);
        let at = choose|at: int| 0 <= at < shorter.len() && shorter[at] == before[k].id;
        assert(timeline[at] == before[k].id);
    } else {
        assert(timeline[timeline.len() - 1] == timeline.last());
    }
}

/// A comment that the thread holds, not redacted, under an id of the
/// timeline is shown.
pub proof fn lemma_shown(
    timeline: Seq<EntryId>,
    entries: Map<CommentId, Option<CommentView>>,
    id: CommentId,
)
    requires
        timeline.contains(id),
        entries.dom().contains(id),
        entries[id] is Some,
    ensures
        exists|k: int|
            0 <= k < listed(timeline, entries).len() && (#[trigger] listed(timeline, entries)[k]).id
                == id,
    decreases timeline.len(),
{
    let shorter = timeline.drop_last();
    let before = listed(shorter, entries);
    let now = listed(timeline, entries);
    if timeline.last() == id {
        assert(now[before.len() as int].id == id);
    } else {
        let at = choose|at: int| 0 <= at < timeline.len() && timeline[at] == id;
        assert(shorter[at] == id);
        lemma_shown(shorter, entries, id);
        let k = choose|k: int| 0 <= k < before.len() && (#[trigger] before[k]).id == id;
        assert(now[k] == before[k]);
    }
}

/// Where a comment with the id `id` is shown at all, one is the first.
proof fn lemma_first_comment(shown: Seq<CommentView>, id: CommentId, k: int)
    requires
        0 <= k < shown.len(),
        shown[k].id == id,
    ensures
        exists|i: int| is_first_comment(shown, id, i),
    decreases k,
{
    if exists|j: int| 0 <= j < k && (#[trigger] shown[j]).id == id {
        let j = choose|j: int| 0 <= j < k && (#[trigger] shown[j]).id == id;
        lemma_first_comment(shown, id, j);
    } else {
        assert(is_first_comment(shown, id, k));
    }
}

/// Whose comment a comment is: the author of the comment that the thread
/// holds under the id, where it holds one, not redacted, under an id of
/// the timeline; nobody's otherwise.
pub proof fn lemma_author_of_shown(plan: PlanView, id: CommentId)
    ensures
        author_of(plan.shown(), id) == if plan.timeline.contains(id) && plan.comments.dom().contains(
            id,
        ) && plan.comments[id] is Some {
            Some(plan.comments[id]->Some_0.author)
        } else {
            None
        },
{
    let shown = plan.shown();
    if plan.timeline.contains(id) && plan.comments.dom().contains(id) && plan.comments[id] is Some {
        lemma_shown(plan.timeline, plan.comments, id);
        let k = choose|k: int| 0 <= k < shown.len() && (#[trigger] shown[k]).id == id;
        lemma_first_comment(shown, id, k);
        let i = choose|i: int| is_first_comment(shown, id, i);
        lemma_listed(plan.timeline, plan.comments, i);
    } else {
        if exists|i: int| is_first_comment(shown, id, i) {
            let i = choose|i: int| is_first_comment(shown, id, i);
            lemma_listed(plan.timeline, plan.comments, i);
        }
    }
}

/// Whether `actor` may apply `action` to the plan `plan`, where
/// `delegates` are the delegates of the identity document.
///
/// A delegate may do everything. Anyone may comment. A comment is edited
/// and redacted by its author alone; where the comment is not shown the
/// outcome is unknown. The labels and the assignees can only be set to what
/// they are. Everything else is for the plan's author.
pub open spec fn authorized(
    plan: PlanView,
    action: Action,
    actor: ActorId,
    delegates: Seq<Did>,
) -> Authorization {
    if delegates.contains(Did { key: actor }) {
        Authorization::Allow
    } else {
        match action {
            Action::Assign { assignees } => Authorization::of(assignees@ == plan.assignees),
            Action::Label { labels } => Authorization::of(labels@ == plan.labels),
            Action::Comment { .. } => Authorization::Allow,
            Action::CommentEdit { id, .. } => match author_of(plan.shown(), id) {
                Some(author) => Authorization::of(actor == author),
                None => Authorization::Unknown,
            },
            Action::CommentRedact { id } => match author_of(plan.shown(), id) {
                Some(author) => Authorization::of(actor == author),
                None => Authorization::Unknown,
            },
            Action::Open { .. }
            | Action::EditTitle { .. }
            | Action::EditDescription { .. }
            | Action::SetStatus { .. }
            | Action::AddTask { .. }
            | Action::EditTask { .. }
            | Action::SetTaskStatus { .. }
            | Action::RemoveTask { .. }
            | Action::ReorderTasks { .. }
            | Action::SetTaskBlockedBy { .. }
            | Action::LinkIssue { .. }
            | Action::UnlinkIssue { .. }
            | Action::LinkPatch { .. }
            | Action::UnlinkPatch { .. }
            | Action::LinkTaskToIssue { .. }
            | Action::LinkTaskToCommit { .. }
            | Action::AddCriticalFile { .. }
            | Action::RemoveCriticalFile { .. } => Authorization::of(actor == plan.author.id.key),
        }
    }
}

/// The author of the first comment of `comments` with the id `id`.
pub fn find_author(comments: &Vec<CommentData>, id: &CommentId) -> (r: Option<ActorId>)
    ensures
        r == author_of(comment_views(comments@), *id),
{
    let ghost shown = comment_views(comments@);
    let mut i: usize = 0;
    while i < comments.len()
        invariant
            i <= comments@.len(),
            shown == comment_views(comments@),
            forall|j: int| 0 <= j < i ==> (#[trigger] shown[j]).id != *id,
        decreases comments@.len() - i,
    {
        if comments[i].id.same(id) {
            assert(is_first_comment(shown, *id, i as int));
            let ghost k = choose|k: int| is_first_comment(shown, *id, k);
            assert(k == i) by {
                if k < i {
                    assert(shown[k].id != *id);
                }
                if i < k {
                    assert(shown[i as int].id != *id);
                }
            }
            return Some(comments[i].author);
        }
        i += 1;
    }
    assert forall|k: int| !is_first_comment(shown, *id, k) by {
        if 0 <= k < shown.len() {
            assert(shown[k].id != *id);
        }
    }
    None
}

impl Plan {
    /// Whether the author of the comment `id` is `actor`. Unknown where no
    /// such comment is shown.
    fn authorize_on_comment(&self, id: &CommentId, actor: &ActorId) -> (a: Authorization)
        ensures
            a == match author_of(self@.shown(), *id) {
                Some(author) => Authorization::of(*actor == author),
                None => Authorization::Unknown,
            },
    {
        let comments = comments_of(&self.thread);
        match find_author(&comments, id) {
            Some(author) => Authorization::from_bool(actor.same(&author)),
            None => Authorization::Unknown,
        }
    }

    /// Apply authorization rules on plan actions.
    pub fn authorization(&self, action: &Action, actor: &ActorId, doc: &Doc) -> (r: Result<
        Authorization,
        Error,
    >)
        ensures
            r is Ok,
            r->Ok_0 == authorized(self@, *action, *actor, doc.delegates@),
    {
        if doc.is_delegate(&Did::from_key(*actor)) {
            // A delegate is authorized to do all actions.
            return Ok(Authorization::Allow);
        }
        let outcome = match action {
            // Only delegates can assign or label.
            Action::Assign { assignees } => Authorization::from_bool(
                assignees.same_as(&self.assignees),
            ),
            Action::Label { labels } => Authorization::from_bool(labels.same_as(&self.labels)),
            // All roles can comment.
            Action::Comment { .. } => Authorization::Allow,
            // Authors can edit and redact their own comments.
            Action::CommentEdit { id, .. } => self.authorize_on_comment(id, actor),
            Action::CommentRedact { id } => self.authorize_on_comment(id, actor),
            // Plan authors can edit their own plans.
            Action::Open { .. }
            | Action::EditTitle { .. }
            | Action::EditDescription { .. }
            | Action::SetStatus { .. }
            | Action::AddTask { .. }
            | Action::EditTask { .. }
            | Action::SetTaskStatus { .. }
            | Action::RemoveTask { .. }
            | Action::ReorderTasks { .. }
            | Action::SetTaskBlockedBy { .. }
            | Action::LinkIssue { .. }
            | Action::UnlinkIssue { .. }
            | Action::LinkPatch { .. }
            | Action::UnlinkPatch { .. }
            | Action::LinkTaskToIssue { .. }
            | Action::LinkTaskToCommit { .. }
            | Action::AddCriticalFile { .. }
            | Action::RemoveCriticalFile { .. } => Authorization::from_bool(
                actor.same(self.author.public_key()),
            ),
        };
        Ok(outcome)
    }
}

} // verus!
