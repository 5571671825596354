//! Plan state.

use vstd::prelude::*;
use radicle::cob::thread::Thread;
use radicle::cob::Timestamp;
use crate::common::Label;
use crate::ids::{Author, CommentId, Did, EntryId, ObjectId, TaskId};
use crate::keyset::{KeySet, SetItem};
use crate::status::PlanStatus;
use crate::task::{Task, TaskView};
use crate::thread::{comments_of, listed, thread_entries, thread_timeline, CommentData,
    CommentView};

verus! {

/// Plan state. Accumulates [`Action`](crate::actions::Action)s.
#[derive(Debug, Clone, PartialEq, Eq)]
pub struct Plan {
    /// Plan title.
    pub(crate) title: String,
    /// Plan description.
    pub(crate) description: String,
    /// Current plan status.
    pub(crate) status: PlanStatus,
    /// Tasks in this plan.
    pub(crate) tasks: Vec<Task>,
    /// Related issues.
    pub(crate) related_issues: KeySet<ObjectId>,
    /// Related patches.
    pub(crate) related_patches: KeySet<ObjectId>,
    /// Critical files that the plan affects.
    pub(crate) critical_files: KeySet<String>,
    /// Associated labels.
    pub(crate) labels: KeySet<Label>,
    /// Actors assigned to this plan.
    pub(crate) assignees: KeySet<Did>,
    /// Discussion thread.
    pub(crate) thread: Thread,
    /// Plan author.
    pub(crate) author: Author,
    /// When the plan was created.
    pub(crate) created_at: Timestamp,
}

/// A [`Plan`] as a mathematical value.
///
/// Each set is the ascending sequence of its items' keys: the bytes of an
/// id or of a key, the UTF-8 encoding of a path or of a label's name. The
/// discussion thread is what it holds and its timeline.
pub struct PlanView {
    pub title: Seq<char>,
    pub description: Seq<char>,
    pub status: PlanStatus,
    pub tasks: Seq<TaskView>,
    pub related_issues: Seq<Seq<u8>>,
    pub related_patches: Seq<Seq<u8>>,
    pub critical_files: Seq<Seq<u8>>,
    pub labels: Seq<Seq<u8>>,
    pub assignees: Seq<Seq<u8>>,
    pub comments: Map<CommentId, Option<CommentView>>,
    pub timeline: Seq<EntryId>,
    pub author: Author,
    pub created_at: Timestamp,
}

/// Each task of `tasks` as a mathematical value.
pub open spec fn task_views(tasks: Seq<Task>) -> Seq<TaskView> {
    Seq::new(tasks.len(), |i: int| tasks[i]@)
}

/// Each comment of `comments` as a mathematical value.
pub open spec fn comment_views(comments: Seq<CommentData>) -> Seq<CommentView> {
    Seq::new(comments.len(), |i: int| comments[i]@)
}

/// Whether `i` is the place of the first task of `tasks` with the id `id`.
pub open spec fn is_first(tasks: Seq<TaskView>, id: TaskId, i: int) -> bool {
    &&& 0 <= i < tasks.len()
    &&& tasks[i].id == id
    &&& forall|j: int| 0 <= j < i ==> (#[trigger] tasks[j]).id != id
}

/// The place of the first task of `tasks` with the id `id`.
pub open spec fn index_of(tasks: Seq<TaskView>, id: TaskId) -> Option<int> {
    if exists|i: int| is_first(tasks, id, i) {
        Some(choose|i: int| is_first(tasks, id, i))
    } else {
        None
    }
}

/// Whether a task of `tasks` has the id `id`.
pub open spec fn has_id(tasks: Seq<TaskView>, id: TaskId) -> bool {
    exists|i: int| 0 <= i < tasks.len() && (#[trigger] tasks[i]).id == id
}

/// Whether a task of `tasks` has the id `id` and is done.
pub open spec fn is_done_id(tasks: Seq<TaskView>, id: TaskId) -> bool {
    exists|i: int| 0 <= i < tasks.len() && (#[trigger] tasks[i]).id == id && tasks[i].is_done()
}

/// Whether the task `t` can be worked on, in a plan whose tasks are
/// `tasks`: it is not done, and each task that blocks it is a task of the
/// plan that is done.
pub open spec fn is_unblocked(tasks: Seq<TaskView>, t: TaskView) -> bool {
    &&& !t.is_done()
    &&& forall|k: int| 0 <= k < t.blocked_by.len() ==> is_done_id(tasks, #[trigger] t.blocked_by[k])
}

/// The tasks among `some` that can be worked on, in a plan whose tasks are
/// `tasks`, in their order.
pub open spec fn unblocked_among(tasks: Seq<TaskView>, some: Seq<TaskView>) -> Seq<TaskView>
    decreases some.len(),
{
    if some.len() == 0 {
        Seq::empty()
    } else {
        let before = unblocked_among(tasks, some.drop_last());
        if is_unblocked(tasks, some.last()) {
            before.push(some.last())
        } else {
            before
        }
    }
}

/// How many of `tasks` are done.
pub open spec fn done_among(tasks: Seq<TaskView>) -> nat
    decreases tasks.len(),
{
    if tasks.len() == 0 {
        0
    } else {
        done_among(tasks.drop_last()) + if tasks.last().is_done() {
            1nat
        } else {
            0nat
        }
    }
}

/// No more tasks are done than there are tasks.
pub proof fn lemma_done_among_bound(tasks: Seq<TaskView>)
    ensures
        done_among(tasks) <= tasks.len(),
    decreases tasks.len(),
{
    if tasks.len() > 0 {
        lemma_done_among_bound(tasks.drop_last());
    }
}

/// Every task is done exactly when as many tasks are done as there are.
pub proof fn lemma_done_among_all(tasks: Seq<TaskView>)
    ensures
        done_among(tasks) == tasks.len() <==> forall|i: int|
            0 <= i < tasks.len() ==> (#[trigger] tasks[i]).is_done(),
    decreases tasks.len(),
{
    if tasks.len() > 0 {
        let before = tasks.drop_last();
        lemma_done_among_all(before);
        lemma_done_among_bound(before);
        if done_among(tasks) == tasks.len() {
            assert forall|i: int| 0 <= i < tasks.len() implies (#[trigger] tasks[i]).is_done() by {
                if i < before.len() {
                    assert(before[i] == tasks[i]);
                }
            }
        } else if tasks.last().is_done() {
            let i = choose|i: int| 0 <= i < before.len() && !(#[trigger] before[i]).is_done();
            assert(tasks[i] == before[i]);
        } else {
            assert(!tasks[tasks.len() - 1].is_done());
        }
    }
}

/// The place of the first task of `tasks` with the id `id`.
pub fn find_task(tasks: &Vec<Task>, id: &TaskId) -> (r: Option<usize>)
    ensures
        match r {
            Some(i) => index_of(task_views(tasks@), *id) == Some(i as int) && is_first(
                task_views(tasks@),
                *id,
                i as int,
            ),
            None => index_of(task_views(tasks@), *id) is None && !has_id(task_views(tasks@), *id),
        },
{
    let ghost views = task_views(tasks@);
    let mut i: usize = 0;
    while i < tasks.len()
        invariant
            i <= tasks@.len(),
            views == task_views(tasks@),
            forall|j: int| 0 <= j < i ==> (#[trigger] views[j]).id != *id,
        decreases tasks@.len() - i,
    {
        if tasks[i].id.same(id) {
            assert(is_first(views, *id, i as int));
            return Some(i);
        }
        i += 1;
    }
    assert forall|k: int| !is_first(views, *id, k) by {
        if 0 <= k < views.len() {
            assert(views[k].id != *id);
        }
    }
    None
}

impl View for Plan {
    type V = PlanView;

    open(crate) spec fn view(&self) -> PlanView {
        PlanView {
            title: self.title@,
            description: self.description@,
            status: self.status,
            tasks: task_views(self.tasks@),
            related_issues: self.related_issues@,
            related_patches: self.related_patches@,
            critical_files: self.critical_files@,
            labels: self.labels@,
            assignees: self.assignees@,
            comments: thread_entries(self.thread),
            timeline: thread_timeline(self.thread),
            author: self.author,
            created_at: self.created_at,
        }
    }
}

impl PlanView {
    /// The comments that are shown, in the order of the timeline.
    pub open spec fn shown(self) -> Seq<CommentView> {
        listed(self.timeline, self.comments)
    }
}

impl Plan {
    /// The plan's invariant: each of its sets is in ascending order.
    pub open(crate) spec fn wf(&self) -> bool {
        &&& self.related_issues.wf()
        &&& self.related_patches.wf()
        &&& self.critical_files.wf()
        &&& self.labels.wf()
        &&& self.assignees.wf()
    }

    /// Create a new plan: a draft with no tasks, links, files, labels or
    /// assignees.
    pub fn new(
        title: String,
        description: String,
        thread: Thread,
        author: Author,
        timestamp: Timestamp,
    ) -> (plan: Plan)
        ensures
            plan.wf(),
            plan@ == (PlanView {
                title: title@,
                description: description@,
                status: PlanStatus::Draft,
                tasks: Seq::empty(),
                related_issues: Seq::empty(),
                related_patches: Seq::empty(),
                critical_files: Seq::empty(),
                labels: Seq::empty(),
                assignees: Seq::empty(),
                comments: thread_entries(thread),
                timeline: thread_timeline(thread),
                author,
                created_at: timestamp,
            }),
    {
        let plan = Plan {
            title,
            description,
            status: PlanStatus::Draft,
            tasks: Vec::new(),
            related_issues: KeySet::new(),
            related_patches: KeySet::new(),
            critical_files: KeySet::new(),
            labels: KeySet::new(),
            assignees: KeySet::new(),
            thread,
            author,
            created_at: timestamp,
        };
        assert(plan@.tasks =~= Seq::empty());
        plan
    }

    /// The plan that has the given parts.
    pub fn from_parts(
        title: String,
        description: String,
        status: PlanStatus,
        tasks: Vec<Task>,
        related_issues: KeySet<ObjectId>,
        related_patches: KeySet<ObjectId>,
        critical_files: KeySet<String>,
        labels: KeySet<Label>,
        assignees: KeySet<Did>,
        thread: Thread,
        author: Author,
        timestamp: Timestamp,
    ) -> (plan: Plan)
        requires
            related_issues.wf(),
            related_patches.wf(),
            critical_files.wf(),
            labels.wf(),
            assignees.wf(),
        ensures
            plan.wf(),
            plan@ == (PlanView {
                title: title@,
                description: description@,
                status,
                tasks: task_views(tasks@),
                related_issues: related_issues@,
                related_patches: related_patches@,
                critical_files: critical_files@,
                labels: labels@,
                assignees: assignees@,
                comments: thread_entries(thread),
                timeline: thread_timeline(thread),
                author,
                created_at: timestamp,
            }),
    {
        Plan {
            title,
            description,
            status,
            tasks,
            related_issues,
            related_patches,
            critical_files,
            labels,
            assignees,
            thread,
            author,
            created_at: timestamp,
        }
    }

    /// Get the plan title.
    pub fn title(&self) -> (s: &str)
        ensures
            s@ == self@.title,
    {
        self.title.as_str()
    }

    /// Get the plan description.
    pub fn description(&self) -> (s: &str)
        ensures
            s@ == self@.description,
    {
        self.description.as_str()
    }

    /// Get the plan status.
    pub fn status(&self) -> (s: &PlanStatus)
        ensures
            *s == self@.status,
    {
        &self.status
    }

    /// Get the plan author.
    pub fn author(&self) -> (a: &Author)
        ensures
            *a == self@.author,
    {
        &self.author
    }

    /// Get when the plan was created.
    pub fn created_at(&self) -> (t: Timestamp)
        ensures
            t == self@.created_at,
    {
        self.created_at
    }

    /// Get comments: those that are shown, in the order of the timeline.
    pub fn comments(&self) -> (v: Vec<CommentData>)
        ensures
            comment_views(v@) == self@.shown(),
    {
        comments_of(&self.thread)
    }

    /// Get the root comment (plan description): the first comment that is
    /// shown, if any is.
    pub fn root(&self) -> (r: Option<CommentData>)
        ensures
            match r {
                Some(c) => self@.shown().len() > 0 && c@ == self@.shown()[0],
                None => self@.shown().len() == 0,
            },
    {
        let mut v = comments_of(&self.thread);
        if v.len() == 0 {
            None
        } else {
            let ghost first = v@[0]@;
            assert(comment_views(v@)[0] == first);
            Some(v.swap_remove(0))
        }
    }

    /// Get the discussion thread.
    pub fn thread(&self) -> (t: &Thread)
        ensures
            thread_entries(*t) == self@.comments,
            thread_timeline(*t) == self@.timeline,
    {
        &self.thread
    }

    /// Get all tasks.
    pub fn tasks(&self) -> (tasks: &[Task])
        ensures
            task_views(tasks@) == self@.tasks,
    {
        self.tasks.as_slice()
    }

    /// Get a task by ID: the first task with that id.
    pub fn task(&self, id: &TaskId) -> (r: Option<&Task>)
        ensures
            match index_of(self@.tasks, *id) {
                Some(i) => r is Some && r->Some_0@ == self@.tasks[i],
                None => r is None,
            },
    {
        match find_task(&self.tasks, id) {
            Some(i) => Some(&self.tasks[i]),
            None => None,
        }
    }

    /// Get tasks that are not yet done and whose blockers are all done.
    pub fn unblocked_tasks(&self) -> (v: Vec<&Task>)
        ensures
            Seq::new(v@.len(), |i: int| v@[i]@) == unblocked_among(self@.tasks, self@.tasks),
    {
        let ghost views = task_views(self.tasks@);
        let mut v: Vec<&Task> = Vec::new();
        let mut i: usize = 0;
        while i < self.tasks.len()
            invariant
                i <= self.tasks@.len(),
                views == task_views(self.tasks@),
                Seq::new(v@.len(), |k: int| v@[k]@) == unblocked_among(views, views.take(i as int)),
            decreases self.tasks@.len() - i,
        {
            let task = &self.tasks[i];
            let ok = !task.is_done() && self.all_done(&task.blocked_by);
            proof {
                assert(views.take(i + 1).drop_last() =~= views.take(i as int));
                assert(views.take(i + 1).last() == task@);
                assert(task@.blocked_by == task.blocked_by@);
                assert(ok == is_unblocked(views, task@));
            }
            let ghost before = Seq::new(v@.len(), |k: int| v@[k]@);
            if ok {
                v.push(task);
                assert(Seq::new(v@.len(), |k: int| v@[k]@) =~= before.push(task@));
            }
            i += 1;
        }
        assert(views.take(i as int) =~= views);
        v
    }

    /// Whether each of `ids` is the id of a task of the plan that is done.
    fn all_done(&self, ids: &Vec<TaskId>) -> (b: bool)
        ensures
            b == forall|k: int|
                0 <= k < ids@.len() ==> is_done_id(task_views(self.tasks@), #[trigger] ids@[k]),
    {
        let mut k: usize = 0;
        while k < ids.len()
            invariant
                k <= ids@.len(),
                forall|j: int|
                    0 <= j < k ==> is_done_id(task_views(self.tasks@), #[trigger] ids@[j]),
            decreases ids@.len() - k,
        {
            if !self.is_done_task(&ids[k]) {
                return false;
            }
            k += 1;
        }
        true
    }

    /// Whether `id` is the id of a task of the plan that is done.
    fn is_done_task(&self, id: &TaskId) -> (b: bool)
        ensures
            b == is_done_id(task_views(self.tasks@), *id),
    {
        let ghost views = task_views(self.tasks@);
        let mut i: usize = 0;
        while i < self.tasks.len()
            invariant
                i <= self.tasks@.len(),
                views == task_views(self.tasks@),
                forall|j: int| 0 <= j < i ==> !((#[trigger] views[j]).id == *id && views[j].is_done()),
            decreases self.tasks@.len() - i,
        {
            if self.tasks[i].id.same(id) && self.tasks[i].is_done() {
                assert(views[i as int].id == *id && views[i as int].is_done());
                return true;
            }
            i += 1;
        }
        false
    }

    /// Get related issues, in ascending order.
    pub fn related_issues(&self) -> (v: &[ObjectId])
        ensures
            v@.len() == self@.related_issues.len(),
            forall|i: int| 0 <= i < v@.len() ==> (#[trigger] v@[i]).key() == self@.related_issues[i],
    {
        self.related_issues.items().as_slice()
    }

    /// Get related patches, in ascending order.
    pub fn related_patches(&self) -> (v: &[ObjectId])
        ensures
            v@.len() == self@.related_patches.len(),
            forall|i: int| 0 <= i < v@.len() ==> (#[trigger] v@[i]).key() == self@.related_patches[i],
    {
        self.related_patches.items().as_slice()
    }

    /// Get critical files, in ascending order.
    pub fn critical_files(&self) -> (v: &[String])
        ensures
            v@.len() == self@.critical_files.len(),
            forall|i: int| 0 <= i < v@.len() ==> (#[trigger] v@[i]).key() == self@.critical_files[i],
    {
        self.critical_files.items().as_slice()
    }

    /// Get labels, in ascending order.
    pub fn labels(&self) -> (v: &[Label])
        ensures
            v@.len() == self@.labels.len(),
            forall|i: int| 0 <= i < v@.len() ==> (#[trigger] v@[i]).key() == self@.labels[i],
    {
        self.labels.items().as_slice()
    }

    /// Get assignees, in ascending order.
    pub fn assignees(&self) -> (v: &[Did])
        ensures
            v@.len() == self@.assignees.len(),
            forall|i: int| 0 <= i < v@.len() ==> (#[trigger] v@[i]).key() == self@.assignees[i],
    {
        self.assignees.items().as_slice()
    }

    /// How many tasks are done.
    pub fn done_count(&self) -> (n: usize)
        ensures
            n == done_among(self@.tasks),
            n <= self@.tasks.len(),
    {
        let ghost views = task_views(self.tasks@);
        let mut n: usize = 0;
        let mut i: usize = 0;
        while i < self.tasks.len()
            invariant
                i <= self.tasks@.len(),
                views == task_views(self.tasks@),
                n == done_among(views.take(i as int)),
                n <= i,
            decreases self.tasks@.len() - i,
        {
            proof {
                assert(views.take(i + 1).drop_last() =~= views.take(i as int));
                assert(views.take(i + 1).last() == self.tasks@[i as int]@);
            }
            if self.tasks[i].is_done() {
                n += 1;
            }
            i += 1;
        }
        assert(views.take(i as int) =~= views);
        n
    }

    /// Check if all tasks are complete: there is a task, and every task is
    /// done.
    pub fn all_tasks_complete(&self) -> (b: bool)
        ensures
            b == (self@.tasks.len() > 0 && forall|i: int|
                0 <= i < self@.tasks.len() ==> (#[trigger] self@.tasks[i]).is_done()),
    {
        let n = self.done_count();
        proof {
            lemma_done_among_all(self@.tasks);
        }
        self.tasks.len() > 0 && n == self.tasks.len()
    }
}

} // verus!
