//! What each action does to a plan.

use vstd::prelude::*;
use radicle::cob::Timestamp;
use crate::actions::Action;
use crate::error::Error;
use crate::ids::{ActorId, EntryId, ObjectId, Oid, TaskId};
use crate::keyset::{with_key, without_key, SetItem};
use crate::plan::{find_task, has_id, index_of, is_first, task_views, Plan, PlanView};
use crate::task::{Task, TaskView};
use crate::text::{opt_text, texts};
use crate::thread::{comment_error, edited_entries, thread_comment, thread_edit, thread_redact,
    CommentView, ThreadError};

verus! {

/// A task after an edit: each field that the edit names is replaced, the
/// others stay.
pub open spec fn edited_task(
    t: TaskView,
    subject: Option<String>,
    description: Option<Option<String>>,
    estimate: Option<Option<String>>,
    affected_files: Option<Vec<String>>,
) -> TaskView {
    TaskView {
        subject: match subject {
            Some(s) => s@,
            None => t.subject,
        },
        description: match description {
            Some(d) => opt_text(d),
            None => t.description,
        },
        estimate: match estimate {
            Some(e) => opt_text(e),
            None => t.estimate,
        },
        affected_files: match affected_files {
            Some(f) => texts(f@),
            None => t.affected_files,
        },
        ..t
    }
}

/// The tasks with the first task of the id `id` replaced by what `change`
/// makes of it. Without such a task nothing changes.
pub open spec fn with_task(
    tasks: Seq<TaskView>,
    id: TaskId,
    change: spec_fn(TaskView) -> TaskView,
) -> Seq<TaskView> {
    match index_of(tasks, id) {
        Some(i) => tasks.update(i, change(tasks[i])),
        None => tasks,
    }
}

/// The tasks without those of the id `id`, in their order.
pub open spec fn removed(tasks: Seq<TaskView>, id: TaskId) -> Seq<TaskView>
    decreases tasks.len(),
{
    if tasks.len() == 0 {
        Seq::empty()
    } else {
        let before = removed(tasks.drop_last(), id);
        if tasks.last().id == id {
            before
        } else {
            before.push(tasks.last())
        }
    }
}

/// For each id of `order` in turn, the first task of `tasks` with that id,
/// where there is one and the order has not named it before.
pub open spec fn picked(tasks: Seq<TaskView>, order: Seq<TaskId>) -> Seq<TaskView>
    decreases order.len(),
{
    if order.len() == 0 {
        Seq::empty()
    } else {
        let before = picked(tasks, order.drop_last());
        match index_of(tasks, order.last()) {
            Some(i) => if has_id(before, order.last()) {
                before
            } else {
                before.push(tasks[i])
            },
            None => before,
        }
    }
}

/// `chosen`, followed by each task of `tasks` in turn whose id is not yet
/// among those that stand before it.
pub open spec fn append_missing(tasks: Seq<TaskView>, chosen: Seq<TaskView>) -> Seq<TaskView>
    decreases tasks.len(),
{
    if tasks.len() == 0 {
        chosen
    } else {
        let before = append_missing(tasks.drop_last(), chosen);
        if has_id(before, tasks.last().id) {
            before
        } else {
            before.push(tasks.last())
        }
    }
}

/// The tasks in a new order: those that `order` names, in its order and
/// each once, then the tasks that it does not name, in the order they had.
pub open spec fn reordered(tasks: Seq<TaskView>, order: Seq<TaskId>) -> Seq<TaskView> {
    append_missing(tasks, picked(tasks, order))
}

/// Why the discussion thread refuses an action, if it does. No other
/// action fails.
pub open spec fn step_error(plan: PlanView, action: Action, entry: EntryId) -> Option<ThreadError> {
    match action {
        Action::Comment { body, reply_to, .. } => comment_error(
            plan.comments,
            entry,
            body@,
            reply_to,
        ),
        Action::CommentEdit { id, .. } => if plan.comments.dom().contains(id) {
            None
        } else {
            Some(ThreadError::Missing(id))
        },
        Action::CommentRedact { id } => if plan.comments.dom().contains(id) {
            None
        } else {
            Some(ThreadError::Missing(entry))
        },
        _ => None,
    }
}

/// The plan after `action`, applied under the entry `entry`, which
/// `author` made at the time `timestamp`.
pub open spec fn step(
    plan: PlanView,
    action: Action,
    entry: EntryId,
    author: ActorId,
    timestamp: Timestamp,
) -> PlanView {
    match action {
        Action::Open { title, description, .. } => PlanView {
            title: title@,
            description: description@,
            ..plan
        },
        Action::EditTitle { title } => PlanView { title: title@, ..plan },
        Action::EditDescription { description, .. } => PlanView {
            description: description@,
            ..plan
        },
        Action::SetStatus { status } => PlanView { status, ..plan },
        Action::AddTask { subject, description, estimate, affected_files } => PlanView {
            tasks: plan.tasks.push(
                TaskView::created(
                    entry,
                    subject@,
                    opt_text(description),
                    opt_text(estimate),
                    texts(affected_files@),
                    author,
                    timestamp,
                ),
            ),
            ..plan
        },
        Action::EditTask { task_id, subject, description, estimate, affected_files } => PlanView {
            tasks: with_task(
                plan.tasks,
                task_id,
                |t: TaskView| edited_task(t, subject, description, estimate, affected_files),
            ),
            ..plan
        },
        Action::SetTaskStatus { .. } => plan,
        Action::LinkTaskToCommit { task_id, commit } => PlanView {
            tasks: with_task(
                plan.tasks,
                task_id,
                |t: TaskView| TaskView { linked_commit: Some(commit), ..t },
            ),
            ..plan
        },
        Action::RemoveTask { task_id } => PlanView { tasks: removed(plan.tasks, task_id), ..plan },
        Action::ReorderTasks { task_ids } => PlanView {
            tasks: reordered(plan.tasks, task_ids@),
            ..plan
        },
        Action::SetTaskBlockedBy { task_id, blocked_by } => PlanView {
            tasks: with_task(
                plan.tasks,
                task_id,
                |t: TaskView| TaskView { blocked_by: blocked_by@, ..t },
            ),
            ..plan
        },
        Action::LinkIssue { issue_id } => PlanView {
            related_issues: with_key(plan.related_issues, issue_id.key()),
            ..plan
        },
        Action::UnlinkIssue { issue_id } => PlanView {
            related_issues: without_key(plan.related_issues, issue_id.key()),
            ..plan
        },
        Action::LinkPatch { patch_id } => PlanView {
            related_patches: with_key(plan.related_patches, patch_id.key()),
            ..plan
        },
        Action::UnlinkPatch { patch_id } => PlanView {
            related_patches: without_key(plan.related_patches, patch_id.key()),
            ..plan
        },
        Action::LinkTaskToIssue { task_id, issue_id } => PlanView {
            tasks: with_task(
                plan.tasks,
                task_id,
                |t: TaskView| TaskView { linked_issue: Some(issue_id), ..t },
            ),
            ..plan
        },
        Action::AddCriticalFile { path } => PlanView {
            critical_files: with_key(plan.critical_files, path.key()),
            ..plan
        },
        Action::RemoveCriticalFile { path } => PlanView {
            critical_files: without_key(plan.critical_files, path.key()),
            ..plan
        },
        Action::Comment { body, reply_to, embeds } => if comment_error(
            plan.comments,
            entry,
            body@,
            reply_to,
        ) is Some {
            plan
        } else {
            PlanView {
                timeline: plan.timeline.push(entry),
                comments: plan.comments.insert(
                    entry,
                    Some(CommentView::fresh(entry, author, timestamp, body@, reply_to, embeds@)),
                ),
                ..plan
            }
        },
        Action::CommentEdit { id, body, embeds } => PlanView {
            timeline: plan.timeline.push(entry),
            comments: edited_entries(plan.comments, id, author, timestamp, body@, embeds@),
            ..plan
        },
        Action::CommentRedact { id } => if plan.comments.dom().contains(id) {
            PlanView {
                timeline: plan.timeline.push(entry),
                comments: plan.comments.insert(id, None),
                ..plan
            }
        } else {
            plan
        },
        Action::Label { labels } => PlanView { labels: labels@, ..plan },
        Action::Assign { assignees } => PlanView { assignees: assignees@, ..plan },
    }
}

/// Whether no two tasks of `tasks` have the same id.
pub open spec fn distinct_ids(tasks: Seq<TaskView>) -> bool {
    forall|i: int, j: int|
        0 <= i < j < tasks.len() ==> (#[trigger] tasks[i]).id != (#[trigger] tasks[j]).id
}

/// What is picked for an order: tasks of the plan, no two with the same
/// id.
proof fn lemma_picked(tasks: Seq<TaskView>, order: Seq<TaskId>)
    ensures
        distinct_ids(picked(tasks, order)),
        forall|k: int|
            0 <= k < picked(tasks, order).len() ==> tasks.contains(
                #[trigger] picked(tasks, order)[k],
            ),
    decreases order.len(),
{
    if order.len() > 0 {
        let shorter = order.drop_last();
        lemma_picked(tasks, shorter);
        let before = picked(tasks, shorter);
        let now = picked(tasks, order);
        match index_of(tasks, order.last()) {
            Some(i) => {
                assert(is_first(tasks, order.last(), i));
                if !has_id(before, order.last()) {
                    assert(now == before.push(tasks[i]));
                    assert forall|a: int, b: int| 0 <= a < b < now.len() implies (
                    #[trigger] now[a]).id != (#[trigger] now[b]).id by {
                        assert(now[a] == before[a]);
                        if b < before.len() {
                            assert(now[b] == before[b]);
                        }
                    }
                    assert forall|k: int| 0 <= k < now.len() implies tasks.contains(
                        #[trigger] now[k],
                    ) by {
                        if k < before.len() {
                            assert(now[k] == before[k]);
                        }
                    }
                }
            },
            None => {},
        }
    }
}

/// What stands after the first `n` tasks were added to `chosen` where they
/// were missing: tasks of the plan, no two with the same id, and among them
/// the id of each of those `n` tasks.
proof fn lemma_append_missing(tasks: Seq<TaskView>, chosen: Seq<TaskView>, n: int)
    requires
        0 <= n <= tasks.len(),
        forall|k: int| 0 <= k < chosen.len() ==> tasks.contains(#[trigger] chosen[k]),
    ensures
        distinct_ids(chosen) ==> distinct_ids(append_missing(tasks.take(n), chosen)),
        forall|k: int|
            0 <= k < append_missing(tasks.take(n), chosen).len() ==> tasks.contains(
                #[trigger] append_missing(tasks.take(n), chosen)[k],
            ),
        forall|j: int|
            0 <= j < n ==> has_id(append_missing(tasks.take(n), chosen), (#[trigger] tasks[j]).id),
    decreases n,
{
    let now = append_missing(tasks.take(n), chosen);
    if n > 0 {
        lemma_append_missing(tasks, chosen, n - 1);
        let before = append_missing(tasks.take(n - 1), chosen);
        let x = tasks[n - 1];
        assert(tasks.take(n).drop_last() =~= tasks.take(n - 1));
        assert(tasks.take(n).last() == x);
        if has_id(before, x.id) {
            assert(now == before);
        } else {
            assert(now == before.push(x));
            if distinct_ids(chosen) {
                assert forall|a: int, b: int| 0 <= a < b < now.len() implies (#[trigger] now[a]).id
                    != (#[trigger] now[b]).id by {
                    assert(now[a] == before[a]);
                    if b < before.len() {
                        assert(now[b] == before[b]);
                    }
                }
            }
            assert forall|k: int| 0 <= k < now.len() implies tasks.contains(#[trigger] now[k]) by {
                if k < before.len() {
                    assert(now[k] == before[k]);
                } else {
                    assert(tasks[n - 1] == now[k]);
                }
            }
            assert forall|j: int| 0 <= j < n implies has_id(now, (#[trigger] tasks[j]).id) by {
                if j < n - 1 {
                    let k = choose|k: int|
                        0 <= k < before.len() && (#[trigger] before[k]).id == tasks[j].id;
                    assert(now[k].id == tasks[j].id);
                } else {
                    assert(now[before.len() as int].id == tasks[j].id);
                }
            }
        }
    } else {
        assert(tasks.take(0) =~= Seq::empty());
    }
}

/// A new order loses no task and adds none: where the tasks of a plan have
/// ids of their own, the tasks in the new order are the same tasks, each
/// once, whatever the order names, leaves out or names twice.
pub proof fn lemma_reorder_keeps_tasks(tasks: Seq<TaskView>, order: Seq<TaskId>)
    requires
        distinct_ids(tasks),
    ensures
        reordered(tasks, order).to_multiset() == tasks.to_multiset(),
        reordered(tasks, order).len() == tasks.len(),
        distinct_ids(reordered(tasks, order)),
        forall|k: int|
            0 <= k < reordered(tasks, order).len() ==> tasks.contains(
                #[trigger] reordered(tasks, order)[k],
            ),
{
    let chosen = picked(tasks, order);
    lemma_picked(tasks, order);
    lemma_append_missing(tasks, chosen, tasks.len() as int);
    assert(tasks.take(tasks.len() as int) =~= tasks);
    let now = reordered(tasks, order);
    assert(now.no_duplicates()) by {
        assert forall|i: int, j: int| 0 <= i < now.len() && 0 <= j < now.len() && i != j implies now[i]
            != now[j] by {
            if i < j {
                assert(now[i].id != now[j].id);
            } else {
                assert(now[j].id != now[i].id);
            }
        }
    }
    assert(tasks.no_duplicates()) by {
        assert forall|i: int, j: int|
            0 <= i < tasks.len() && 0 <= j < tasks.len() && i != j implies tasks[i] != tasks[j] by {
            if i < j {
                assert(tasks[i].id != tasks[j].id);
            } else {
                assert(tasks[j].id != tasks[i].id);
            }
        }
    }
    now.lemma_multiset_has_no_duplicates();
    tasks.lemma_multiset_has_no_duplicates();
    now.to_multiset_ensures();
    tasks.to_multiset_ensures();
    assert forall|t: TaskView| now.contains(t) <==> tasks.contains(t) by {
        if now.contains(t) {
            let k = choose|k: int| 0 <= k < now.len() && now[k] == t;
            assert(tasks.contains(now[k]));
        }
        if tasks.contains(t) {
            let j = choose|j: int| 0 <= j < tasks.len() && tasks[j] == t;
            assert(has_id(now, tasks[j].id));
            let k = choose|k: int| 0 <= k < now.len() && (#[trigger] now[k]).id == tasks[j].id;
            assert(tasks.contains(now[k]));
            let m = choose|m: int| 0 <= m < tasks.len() && tasks[m] == now[k];
            if m < j {
                assert(tasks[m].id != tasks[j].id);
            }
            if j < m {
                assert(tasks[j].id != tasks[m].id);
            }
            assert(now[k] == t);
        }
    }
    assert(now.to_multiset() =~= tasks.to_multiset()) by {
        assert forall|t: TaskView| now.to_multiset().count(t) == tasks.to_multiset().count(t) by {
            if now.contains(t) {
                assert(tasks.contains(t));
                assert(now.to_multiset().contains(t));
                assert(tasks.to_multiset().contains(t));
            } else {
                assert(!tasks.contains(t));
            }
        }
    }
}

/// What is left when tasks are removed are tasks that were there.
proof fn lemma_removed(tasks: Seq<TaskView>, id: TaskId)
    ensures
        forall|k: int|
            0 <= k < removed(tasks, id).len() ==> tasks.contains(#[trigger] removed(tasks, id)[k]),
        forall|k: int| 0 <= k < removed(tasks, id).len() ==> (#[trigger] removed(tasks, id)[k]).id != id,
        distinct_ids(tasks) ==> distinct_ids(removed(tasks, id)),
    decreases tasks.len(),
{
    if tasks.len() > 0 {
        let shorter = tasks.drop_last();
        lemma_removed(shorter, id);
        let before = removed(shorter, id);
        let now = removed(tasks, id);
        assert forall|k: int| 0 <= k < now.len() implies tasks.contains(#[trigger] now[k]) by {
            if k < before.len() {
                assert(now[k] == before[k]);
                let j = choose|j: int| 0 <= j < shorter.len() && shorter[j] == before[k];
                assert(tasks[j] == now[k]);
            } else {
                assert(tasks[tasks.len() - 1] == now[k]);
            }
        }
        if distinct_ids(tasks) {
            assert(distinct_ids(shorter)) by {
                assert forall|i: int, j: int| 0 <= i < j < shorter.len() implies (
                #[trigger] shorter[i]).id != (#[trigger] shorter[j]).id by {
                    assert(tasks[i].id != tasks[j].id);
                }
            }
            assert forall|a: int, b: int| 0 <= a < b < now.len() implies (#[trigger] now[a]).id != (
            #[trigger] now[b]).id by {
                assert(now[a] == before[a]);
                if b < before.len() {
                    assert(now[b] == before[b]);
                } else {
                    let j = choose|j: int| 0 <= j < shorter.len() && shorter[j] == before[a];
                    assert(tasks[j].id != tasks[tasks.len() - 1].id);
                }
            }
        }
    }
}

/// The tasks of a plan keep ids of their own: if no two tasks have the
/// same id, then none have after an action, as long as a new task comes
/// under an entry that made no task yet.
pub proof fn lemma_step_keeps_ids_distinct(
    plan: PlanView,
    action: Action,
    entry: EntryId,
    author: ActorId,
    timestamp: Timestamp,
)
    requires
        distinct_ids(plan.tasks),
        action is AddTask ==> !has_id(plan.tasks, entry),
    ensures
        distinct_ids(step(plan, action, entry, author, timestamp).tasks),
{
    let tasks = plan.tasks;
    let now = step(plan, action, entry, author, timestamp).tasks;
    match action {
        Action::AddTask { .. } => {
            assert forall|i: int, j: int| 0 <= i < j < now.len() implies (#[trigger] now[i]).id != (
            #[trigger] now[j]).id by {
                assert(now[i] == tasks[i]);
                if j < tasks.len() {
                    assert(now[j] == tasks[j]);
                }
            }
        },
        Action::EditTask { task_id, subject, description, estimate, affected_files } => {
            lemma_with_task_keeps_ids(
                tasks,
                task_id,
                |t: TaskView| edited_task(t, subject, description, estimate, affected_files),
            );
        },
        Action::LinkTaskToCommit { task_id, commit } => {
            lemma_with_task_keeps_ids(
                tasks,
                task_id,
                |t: TaskView| TaskView { linked_commit: Some(commit), ..t },
            );
        },
        Action::LinkTaskToIssue { task_id, issue_id } => {
            lemma_with_task_keeps_ids(
                tasks,
                task_id,
                |t: TaskView| TaskView { linked_issue: Some(issue_id), ..t },
            );
        },
        Action::SetTaskBlockedBy { task_id, blocked_by } => {
            lemma_with_task_keeps_ids(
                tasks,
                task_id,
                |t: TaskView| TaskView { blocked_by: blocked_by@, ..t },
            );
        },
        Action::RemoveTask { task_id } => {
            lemma_removed(tasks, task_id);
        },
        Action::ReorderTasks { task_ids } => {
            lemma_picked(tasks, task_ids@);
            lemma_append_missing(tasks, picked(tasks, task_ids@), tasks.len() as int);
            assert(tasks.take(tasks.len() as int) =~= tasks);
        },
        _ => {},
    }
}

/// A change of one task that keeps the task's id keeps every task's id.
proof fn lemma_with_task_keeps_ids(
    tasks: Seq<TaskView>,
    id: TaskId,
    change: spec_fn(TaskView) -> TaskView,
)
    requires
        forall|t: TaskView| (#[trigger] change(t)).id == t.id,
    ensures
        with_task(tasks, id, change).len() == tasks.len(),
        forall|i: int|
            0 <= i < tasks.len() ==> (#[trigger] with_task(tasks, id, change)[i]).id == tasks[i].id,
        distinct_ids(tasks) ==> distinct_ids(with_task(tasks, id, change)),
{
    let now = with_task(tasks, id, change);
    assert forall|i: int| 0 <= i < tasks.len() implies (#[trigger] now[i]).id == tasks[i].id by {
        match index_of(tasks, id) {
            Some(k) => {
                if i == k {
                    assert(now[i] == change(tasks[k]));
                }
            },
            None => {},
        }
    }
    if distinct_ids(tasks) {
        assert forall|i: int, j: int| 0 <= i < j < now.len() implies (#[trigger] now[i]).id != (
        #[trigger] now[j]).id by {
            assert(tasks[i].id != tasks[j].id);
        }
    }
}

/// The thread of a plan forgets nothing: what it holds under an id before
/// an action it holds after it, redacted perhaps, and its timeline only
/// grows.
pub proof fn lemma_step_keeps_comments(
    plan: PlanView,
    action: Action,
    entry: EntryId,
    author: ActorId,
    timestamp: Timestamp,
)
    ensures
        forall|id: EntryId| #[trigger]
            plan.comments.dom().contains(id) ==> step(
                plan,
                action,
                entry,
                author,
                timestamp,
            ).comments.dom().contains(id),
        plan.timeline.is_prefix_of(step(plan, action, entry, author, timestamp).timeline),
{
}

/// A task that is done stays done: no action takes the commit from a task.
///
/// After an action that removes tasks or gives them a new order, each task
/// is a task from before, as it was. After any other action the tasks from
/// before stand where they stood, under their ids, and those that were done
/// are done.
pub proof fn lemma_done_stays_done(
    plan: PlanView,
    action: Action,
    entry: EntryId,
    author: ActorId,
    timestamp: Timestamp,
)
    ensures
        action is RemoveTask || action is ReorderTasks ==> forall|k: int|
            0 <= k < step(plan, action, entry, author, timestamp).tasks.len() ==> plan.tasks.contains(
                #[trigger] step(plan, action, entry, author, timestamp).tasks[k],
            ),
        !(action is RemoveTask || action is ReorderTasks) ==> plan.tasks.len() <= step(
            plan,
            action,
            entry,
            author,
            timestamp,
        ).tasks.len(),
        !(action is RemoveTask || action is ReorderTasks) ==> forall|i: int|
            0 <= i < plan.tasks.len() ==> {
                &&& (#[trigger] step(plan, action, entry, author, timestamp).tasks[i]).id
                    == plan.tasks[i].id
                &&& plan.tasks[i].is_done() ==> step(
                    plan,
                    action,
                    entry,
                    author,
                    timestamp,
                ).tasks[i].is_done()
            },
{
    let tasks = plan.tasks;
    let now = step(plan, action, entry, author, timestamp).tasks;
    match action {
        Action::RemoveTask { task_id } => {
            lemma_removed(tasks, task_id);
        },
        Action::ReorderTasks { task_ids } => {
            lemma_picked(tasks, task_ids@);
            lemma_append_missing(tasks, picked(tasks, task_ids@), tasks.len() as int);
            assert(tasks.take(tasks.len() as int) =~= tasks);
        },
        Action::EditTask { task_id, subject, description, estimate, affected_files } => {
            lemma_with_task_keeps_done(
                tasks,
                task_id,
                |t: TaskView| edited_task(t, subject, description, estimate, affected_files),
            );
        },
        Action::LinkTaskToCommit { task_id, commit } => {
            lemma_with_task_keeps_done(
                tasks,
                task_id,
                |t: TaskView| TaskView { linked_commit: Some(commit), ..t },
            );
        },
        Action::LinkTaskToIssue { task_id, issue_id } => {
            lemma_with_task_keeps_done(
                tasks,
                task_id,
                |t: TaskView| TaskView { linked_issue: Some(issue_id), ..t },
            );
        },
        Action::SetTaskBlockedBy { task_id, blocked_by } => {
            lemma_with_task_keeps_done(
                tasks,
                task_id,
                |t: TaskView| TaskView { blocked_by: blocked_by@, ..t },
            );
        },
        _ => {},
    }
}

/// A change of one task that keeps the task's id and takes no commit away
/// leaves each task under its id, and done if it was.
proof fn lemma_with_task_keeps_done(
    tasks: Seq<TaskView>,
    id: TaskId,
    change: spec_fn(TaskView) -> TaskView,
)
    requires
        forall|t: TaskView| (#[trigger] change(t)).id == t.id,
        forall|t: TaskView| t.is_done() ==> (#[trigger] change(t)).is_done(),
    ensures
        with_task(tasks, id, change).len() == tasks.len(),
        forall|i: int|
            0 <= i < tasks.len() ==> {
                &&& (#[trigger] with_task(tasks, id, change)[i]).id == tasks[i].id
                &&& tasks[i].is_done() ==> with_task(tasks, id, change)[i].is_done()
            },
{
    let now = with_task(tasks, id, change);
    assert forall|i: int| 0 <= i < tasks.len() implies {
        &&& (#[trigger] now[i]).id == tasks[i].id
        &&& tasks[i].is_done() ==> now[i].is_done()
    } by {
        match index_of(tasks, id) {
            Some(k) => {
                if i == k {
                    assert(now[i] == change(tasks[k]));
                }
            },
            None => {},
        }
    }
}

/// Whether `first` and `second` are actions of one kind that replaces a
/// part of the plan as a whole: the title, the description, the status, the
/// labels or the assignees.
pub open spec fn replace_the_same(first: Action, second: Action) -> bool {
    ||| first is EditTitle && second is EditTitle
    ||| first is EditDescription && second is EditDescription
    ||| first is SetStatus && second is SetStatus
    ||| first is Label && second is Label
    ||| first is Assign && second is Assign
}

/// The last writer wins: of two actions that replace the same part of a
/// plan, the one that is applied last decides, and nothing is left of the
/// other.
pub proof fn lemma_last_writer_wins(
    plan: PlanView,
    first: Action,
    second: Action,
    entries: (EntryId, EntryId),
    authors: (ActorId, ActorId),
    times: (Timestamp, Timestamp),
)
    requires
        replace_the_same(first, second),
    ensures
        step(
            step(plan, first, entries.0, authors.0, times.0),
            second,
            entries.1,
            authors.1,
            times.1,
        ) == step(plan, second, entries.1, authors.1, times.1),
{
}

/// An edit of a task that names no field changes nothing, whether the plan
/// has the task or not, and does not fail.
pub proof fn lemma_edit_of_nothing(
    plan: PlanView,
    task_id: TaskId,
    entry: EntryId,
    author: ActorId,
    timestamp: Timestamp,
)
    ensures
        step(
            plan,
            Action::EditTask {
                task_id,
                subject: None,
                description: None,
                estimate: None,
                affected_files: None,
            },
            entry,
            author,
            timestamp,
        ) == plan,
        step_error(
            plan,
            Action::EditTask {
                task_id,
                subject: None,
                description: None,
                estimate: None,
                affected_files: None,
            },
            entry,
        ) is None,
{
    let change = |t: TaskView| edited_task(t, None, None, None, None);
    match index_of(plan.tasks, task_id) {
        Some(i) => {
            assert(change(plan.tasks[i]) == plan.tasks[i]);
            assert(plan.tasks.update(i, change(plan.tasks[i])) =~= plan.tasks);
        },
        None => {},
    }
    assert(with_task(plan.tasks, task_id, change) == plan.tasks);
}

/// The first task with a given id is where it is, and nowhere else.
pub proof fn lemma_index_of(tasks: Seq<TaskView>, id: TaskId, i: int)
    requires
        is_first(tasks, id, i),
    ensures
        index_of(tasks, id) == Some(i),
{
    let k = choose|k: int| is_first(tasks, id, k);
    if k < i {
        assert(tasks[k].id != id);
    }
    if i < k {
        assert(tasks[i].id != id);
    }
}

/// Whether a task of `tasks` has the id `id`.
pub fn holds_id(tasks: &Vec<Task>, id: &TaskId) -> (b: bool)
    ensures
        b == has_id(task_views(tasks@), *id),
{
    match find_task(tasks, id) {
        Some(i) => {
            assert(task_views(tasks@)[i as int].id == *id);
            true
        },
        None => false,
    }
}

/// The tasks without those of the id `id`, in their order.
pub fn without_task(tasks: Vec<Task>, id: &TaskId) -> (r: Vec<Task>)
    ensures
        task_views(r@) == removed(task_views(tasks@), *id),
{
    let ghost views = task_views(tasks@);
    let mut r: Vec<Task> = Vec::new();
    assert(task_views(r@) =~= Seq::empty());
    for task in it: tasks
        invariant
            it.seq() == tasks@,
            views == task_views(tasks@),
            task_views(r@) == removed(views.take(it.index() as int), *id),
    {
        let ghost n = it.index() as int;
        let ghost before = task_views(r@);
        proof {
            assert(views.take(n + 1).drop_last() =~= views.take(n));
            assert(views.take(n + 1).last() == task@);
        }
        if !task.id.same(id) {
            let ghost t = task@;
            r.push(task);
            assert(task_views(r@) =~= before.push(t));
        }
    }
    assert(views.take(views.len() as int) =~= views);
    r
}

/// The tasks in a new order: those that `order` names, in its order, then
/// the tasks that it does not name, in the order they had.
pub fn reorder(tasks: &Vec<Task>, order: &Vec<TaskId>) -> (r: Vec<Task>)
    ensures
        task_views(r@) == reordered(task_views(tasks@), order@),
        distinct_ids(task_views(tasks@)) ==> task_views(r@).to_multiset() == task_views(
            tasks@,
        ).to_multiset(),
{
    let ghost views = task_views(tasks@);
    proof {
        if distinct_ids(views) {
            lemma_reorder_keeps_tasks(views, order@);
        }
    }
    let mut r: Vec<Task> = Vec::new();
    assert(task_views(r@) =~= Seq::empty());
    let mut k: usize = 0;
    while k < order.len()
        invariant
            k <= order@.len(),
            views == task_views(tasks@),
            task_views(r@) == picked(views, order@.take(k as int)),
        decreases order@.len() - k,
    {
        let ghost before = task_views(r@);
        proof {
            assert(order@.take(k + 1).drop_last() =~= order@.take(k as int));
            assert(order@.take(k + 1).last() == order@[k as int]);
        }
        match find_task(tasks, &order[k]) {
            Some(i) => {
                if !holds_id(&r, &order[k]) {
                    let task = tasks[i].duplicate();
                    r.push(task);
                    assert(task_views(r@) =~= before.push(views[i as int]));
                }
            },
            None => {},
        }
        k += 1;
    }
    assert(order@.take(k as int) =~= order@);
    let ghost chosen = task_views(r@);
    // Keep any tasks not in the new order at the end.
    let mut i: usize = 0;
    while i < tasks.len()
        invariant
            i <= tasks@.len(),
            views == task_views(tasks@),
            task_views(r@) == append_missing(views.take(i as int), chosen),
        decreases tasks@.len() - i,
    {
        let ghost before = task_views(r@);
        proof {
            assert(views.take(i + 1).drop_last() =~= views.take(i as int));
            assert(views.take(i + 1).last() == views[i as int]);
        }
        if !holds_id(&r, &tasks[i].id) {
            let task = tasks[i].duplicate();
            r.push(task);
            assert(task_views(r@) =~= before.push(views[i as int]));
        }
        i += 1;
    }
    assert(views.take(i as int) =~= views);
    r
}

/// Replaces, in the first task of the id `task_id`, each field that is
/// given. Without such a task nothing changes.
pub fn edit_task(
    tasks: &mut Vec<Task>,
    task_id: &TaskId,
    subject: Option<String>,
    description: Option<Option<String>>,
    estimate: Option<Option<String>>,
    affected_files: Option<Vec<String>>,
)
    ensures
        task_views(final(tasks)@) == with_task(
            task_views(old(tasks)@),
            *task_id,
            |t: TaskView| edited_task(t, subject, description, estimate, affected_files),
        ),
{
    let ghost views = task_views(tasks@);
    match find_task(tasks, task_id) {
        Some(i) => {
            let mut task = tasks.remove(i);
            let ghost was = task@;
            if let Some(s) = subject {
                task.subject = s;
            }
            if let Some(d) = description {
                task.description = d;
            }
            if let Some(e) = estimate {
                task.estimate = e;
            }
            if let Some(f) = affected_files {
                task.affected_files = f;
            }
            assert(task@ == edited_task(was, subject, description, estimate, affected_files));
            tasks.insert(i, task);
            assert(task_views(tasks@) =~= views.update(
                i as int,
                edited_task(views[i as int], subject, description, estimate, affected_files),
            ));
        },
        None => {},
    }
}

/// Links the first task of the id `task_id` to a commit, which marks it as
/// done. Without such a task nothing changes.
pub fn link_task_to_commit(tasks: &mut Vec<Task>, task_id: &TaskId, commit: Oid)
    ensures
        task_views(final(tasks)@) == with_task(
            task_views(old(tasks)@),
            *task_id,
            |t: TaskView| TaskView { linked_commit: Some(commit), ..t },
        ),
{
    let ghost views = task_views(tasks@);
    match find_task(tasks, task_id) {
        Some(i) => {
            let mut task = tasks.remove(i);
            task.linked_commit = Some(commit);
            tasks.insert(i, task);
            assert(task_views(tasks@) =~= views.update(
                i as int,
                TaskView { linked_commit: Some(commit), ..views[i as int] },
            ));
        },
        None => {},
    }
}

/// Links the first task of the id `task_id` to an issue. Without such a
/// task nothing changes.
pub fn link_task_to_issue(tasks: &mut Vec<Task>, task_id: &TaskId, issue_id: ObjectId)
    ensures
        task_views(final(tasks)@) == with_task(
            task_views(old(tasks)@),
            *task_id,
            |t: TaskView| TaskView { linked_issue: Some(issue_id), ..t },
        ),
{
    let ghost views = task_views(tasks@);
    match find_task(tasks, task_id) {
        Some(i) => {
            let mut task = tasks.remove(i);
            task.linked_issue = Some(issue_id);
            tasks.insert(i, task);
            assert(task_views(tasks@) =~= views.update(
                i as int,
                TaskView { linked_issue: Some(issue_id), ..views[i as int] },
            ));
        },
        None => {},
    }
}

/// Says which tasks block the first task of the id `task_id`. Without such
/// a task nothing changes.
pub fn set_task_blocked_by(tasks: &mut Vec<Task>, task_id: &TaskId, blocked_by: Vec<TaskId>)
    ensures
        task_views(final(tasks)@) == with_task(
            task_views(old(tasks)@),
            *task_id,
            |t: TaskView| TaskView { blocked_by: blocked_by@, ..t },
        ),
{
    let ghost views = task_views(tasks@);
    match find_task(tasks, task_id) {
        Some(i) => {
            let mut task = tasks.remove(i);
            task.blocked_by = blocked_by;
            tasks.insert(i, task);
            assert(task_views(tasks@) =~= views.update(
                i as int,
                TaskView { blocked_by: blocked_by@, ..views[i as int] },
            ));
        },
        None => {},
    }
}

impl Plan {
    /// Apply a single action to the plan, under the entry `entry`, which
    /// `author` made at the time `timestamp`.
    ///
    /// Only a comment, its edit and its redaction can fail, and only for the
    /// discussion thread's own reasons. An entry changes the thread once:
    /// for those three actions `entry` must not be in the thread's timeline
    /// yet.
    pub fn apply_action(
        &mut self,
        action: Action,
        entry: EntryId,
        author: ActorId,
        timestamp: Timestamp,
    ) -> (r: Result<(), Error>)
        requires
            old(self).wf(),
            action.wf(),
            action.touches_thread() ==> !old(self)@.timeline.contains(entry),
        ensures
            final(self).wf(),
            final(self)@ == step(old(self)@, action, entry, author, timestamp),
            match step_error(old(self)@, action, entry) {
                Some(e) => r is Err && r->Err_0 == Error::Thread(e),
                None => r is Ok,
            },
    {
        match action {
            Action::Open { title, description, .. } => {
                self.title = title;
                self.description = description;
            },
            Action::EditTitle { title } => {
                self.title = title.to_string();
            },
            Action::EditDescription { description, .. } => {
                self.description = description;
            },
            Action::SetStatus { status } => {
                self.status = status;
            },
            Action::AddTask { subject, description, estimate, affected_files } => {
                let ghost before = self@.tasks;
                let task = Task::new(
                    entry,
                    subject,
                    description,
                    estimate,
                    affected_files,
                    author,
                    timestamp,
                );
                let ghost added = task@;
                self.tasks.push(task);
                assert(self@.tasks =~= before.push(added));
            },
            Action::EditTask { task_id, subject, description, estimate, affected_files } => {
                edit_task(&mut self.tasks, &task_id, subject, description, estimate, affected_files);
            },
            Action::SetTaskStatus { .. } => {
                // Legacy no-op: old logs may hold such actions.
            },
            Action::LinkTaskToCommit { task_id, commit } => {
                link_task_to_commit(&mut self.tasks, &task_id, commit);
            },
            Action::RemoveTask { task_id } => {
                let mut tasks: Vec<Task> = Vec::new();
                std::mem::swap(&mut self.tasks, &mut tasks);
                self.tasks = without_task(tasks, &task_id);
            },
            Action::ReorderTasks { task_ids } => {
                let tasks = reorder(&self.tasks, &task_ids);
                self.tasks = tasks;
            },
            Action::SetTaskBlockedBy { task_id, blocked_by } => {
                set_task_blocked_by(&mut self.tasks, &task_id, blocked_by);
            },
            Action::LinkIssue { issue_id } => {
                self.related_issues.insert(issue_id);
            },
            Action::UnlinkIssue { issue_id } => {
                self.related_issues.remove(&issue_id);
            },
            Action::LinkPatch { patch_id } => {
                self.related_patches.insert(patch_id);
            },
            Action::UnlinkPatch { patch_id } => {
                self.related_patches.remove(&patch_id);
            },
            Action::LinkTaskToIssue { task_id, issue_id } => {
                link_task_to_issue(&mut self.tasks, &task_id, issue_id);
            },
            Action::AddCriticalFile { path } => {
                self.critical_files.insert(path);
            },
            Action::RemoveCriticalFile { path } => {
                self.critical_files.remove(&path);
            },
            Action::Comment { body, reply_to, embeds } => {
                match thread_comment(
                    &mut self.thread,
                    entry,
                    author,
                    timestamp,
                    body,
                    reply_to,
                    embeds,
                ) {
                    Ok(()) => {},
                    Err(e) => {
                        return Err(Error::Thread(e));
                    },
                }
            },
            Action::CommentEdit { id, body, embeds } => {
                match thread_edit(&mut self.thread, entry, author, id, timestamp, body, embeds) {
                    Ok(()) => {},
                    Err(e) => {
                        return Err(Error::Thread(e));
                    },
                }
            },
            Action::CommentRedact { id } => {
                match thread_redact(&mut self.thread, entry, id) {
                    Ok(()) => {},
                    Err(e) => {
                        return Err(Error::Thread(e));
                    },
                }
            },
            Action::Label { labels } => {
                self.labels = labels;
            },
            Action::Assign { assignees } => {
                self.assignees = assignees;
            },
        }
        Ok(())
    }
}

} // verus!
