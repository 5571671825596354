//! Operations: the actions of one log entry, and how a plan takes them.

use vstd::prelude::*;
use radicle::cob::{Embed, Timestamp, Uri};
use crate::actions::Action;
use crate::apply::{distinct_ids, holds_id, lemma_step_keeps_comments,
    lemma_step_keeps_ids_distinct, step, step_error};
use crate::authorize::{authorized, lemma_author_of_shown};
use crate::common::{title_of, Authorization, Title, TitleError};
use crate::error::Error;
use crate::identity::Doc;
use crate::ids::{ActorId, Author, Did, EntryId};
use crate::plan::{has_id, Plan, PlanView};
use crate::status::PlanStatus;
use crate::text::copy_str;
use crate::thread::{only, thread_new, timeline_of, CommentView};

verus! {

/// What is said of a first entry whose first action does not open a plan.
pub const NOT_OPENED: &'static str = "the first action must be of type `Open`";

/// The operation of one log entry: its actions, with the entry's id, its
/// author and its time.
#[derive(Debug, Clone, PartialEq, Eq)]
pub struct Op {
    /// ID of the entry under which the operation lives.
    pub id: EntryId,
    /// The actions carried out by the operation.
    pub actions: Vec<Action>,
    /// The author of the operation.
    pub author: ActorId,
    /// Timestamp of the operation.
    pub timestamp: Timestamp,
}

/// Whether each action of `actions` is well formed.
pub open spec fn all_wf(actions: Seq<Action>) -> bool {
    forall|i: int| 0 <= i < actions.len() ==> (#[trigger] actions[i]).wf()
}

impl Op {
    /// What an operation must satisfy: each of its actions is well formed.
    pub open spec fn wf(&self) -> bool {
        all_wf(self.actions@)
    }

    /// The operation of an entry.
    pub fn new(id: EntryId, actions: Vec<Action>, author: ActorId, timestamp: Timestamp) -> (op: Op)
        ensures
            op.id == id,
            op.actions == actions,
            op.author == author,
            op.timestamp == timestamp,
    {
        Op { id, actions, author, timestamp }
    }

    /// The id of the entry under which the operation lives.
    pub fn id(&self) -> (id: EntryId)
        ensures
            id == self.id,
    {
        self.id
    }
}

/// What comes of a run of actions: the plan as it then stands, and the
/// error that stopped the run, if one did.
pub struct Outcome {
    pub plan: PlanView,
    pub error: Option<Error>,
}

/// Whether the entry `entry` has had its turn for what `action` does. An
/// entry changes the discussion thread once, and it makes one task, which
/// has the entry's id: no two tasks of a plan have the same id.
pub open spec fn used_up(plan: PlanView, action: Action, entry: EntryId) -> bool {
    ||| action.touches_thread() && plan.timeline.contains(entry)
    ||| action is AddTask && has_id(plan.tasks, entry)
}

/// The plan after the actions of one entry, taken in turn.
///
/// Each action is authorized first. One that is denied stops the run with
/// an error. One whose outcome is unknown is passed over. One that is
/// allowed is applied; if the discussion thread refuses it, that stops the
/// run. An action for which the entry has had its turn is not allowed, and
/// stops the run: a second change of the thread, or a second new task.
///
/// When the run is stopped, the plan stands as the actions before left it
/// (the thread also keeps in its timeline an edit that it refused).
pub open spec fn run(
    plan: PlanView,
    actions: Seq<Action>,
    entry: EntryId,
    author: ActorId,
    timestamp: Timestamp,
    delegates: Seq<Did>,
) -> Outcome
    decreases actions.len(),
{
    if actions.len() == 0 {
        Outcome { plan, error: None }
    } else {
        let action = actions[0];
        match authorized(plan, action, author, delegates) {
            Authorization::Allow => {
                if used_up(plan, action, entry) {
                    Outcome { plan, error: Some(Error::NotAllowed(entry)) }
                } else {
                    let next = step(plan, action, entry, author, timestamp);
                    match step_error(plan, action, entry) {
                        Some(e) => Outcome { plan: next, error: Some(Error::Thread(e)) },
                        None => run(next, actions.drop_first(), entry, author, timestamp, delegates),
                    }
                }
            },
            Authorization::Deny => Outcome {
                plan,
                error: Some(Error::NotAuthorized(author, action)),
            },
            Authorization::Unknown => run(
                plan,
                actions.drop_first(),
                entry,
                author,
                timestamp,
                delegates,
            ),
        }
    }
}

/// What comes of the actions of an entry depends on nothing but the plan as
/// a value, the actions and the entry: two plans that are the same value
/// are the same value after the same actions, and stop on the same error.
pub proof fn lemma_run_is_determined(
    one: Plan,
    other: Plan,
    actions: Seq<Action>,
    entry: EntryId,
    author: ActorId,
    timestamp: Timestamp,
    delegates: Seq<Did>,
)
    requires
        one@ == other@,
    ensures
        run(one@, actions, entry, author, timestamp, delegates) == run(
            other@,
            actions,
            entry,
            author,
            timestamp,
            delegates,
        ),
{
}

/// The thread of a plan is never empty: it holds the comment that the plan
/// was opened with, and what it holds under an id before the actions of an
/// entry it holds after them, redacted perhaps.
pub proof fn lemma_run_keeps_comments(
    plan: PlanView,
    actions: Seq<Action>,
    entry: EntryId,
    author: ActorId,
    timestamp: Timestamp,
    delegates: Seq<Did>,
    id: EntryId,
)
    requires
        plan.comments.dom().contains(id),
    ensures
        run(plan, actions, entry, author, timestamp, delegates).plan.comments.dom().contains(id),
        forall|title: Seq<char>, description: Seq<char>, embeds: Seq<Embed<Uri>>|
            (#[trigger] opened(
                id,
                author,
                timestamp,
                title,
                description,
                embeds,
            )).comments.dom().contains(id),
    decreases actions.len(),
{
    if actions.len() > 0 {
        let action = actions[0];
        lemma_step_keeps_comments(plan, action, entry, author, timestamp);
        let next = step(plan, action, entry, author, timestamp);
        lemma_run_keeps_comments(next, actions.drop_first(), entry, author, timestamp, delegates, id);
        lemma_run_keeps_comments(plan, actions.drop_first(), entry, author, timestamp, delegates, id);
    }
}

/// No two tasks of a plan have the same id: if that holds before the
/// actions of an entry, it holds after them, whatever the actions are and
/// however the run ends. It holds of a plan that was just opened.
pub proof fn lemma_run_keeps_ids_distinct(
    plan: PlanView,
    actions: Seq<Action>,
    entry: EntryId,
    author: ActorId,
    timestamp: Timestamp,
    delegates: Seq<Did>,
)
    requires
        distinct_ids(plan.tasks),
    ensures
        distinct_ids(run(plan, actions, entry, author, timestamp, delegates).plan.tasks),
        forall|title: Seq<char>, description: Seq<char>, embeds: Seq<Embed<Uri>>|
            distinct_ids(
                (#[trigger] opened(entry, author, timestamp, title, description, embeds)).tasks,
            ),
    decreases actions.len(),
{
    if actions.len() > 0 {
        let action = actions[0];
        if !used_up(plan, action, entry) {
            lemma_step_keeps_ids_distinct(plan, action, entry, author, timestamp);
            let next = step(plan, action, entry, author, timestamp);
            lemma_run_keeps_ids_distinct(
                next,
                actions.drop_first(),
                entry,
                author,
                timestamp,
                delegates,
            );
        }
        lemma_run_keeps_ids_distinct(plan, actions.drop_first(), entry, author, timestamp, delegates);
    }
}

/// What comes of the first entry of a log leaves no two tasks with the
/// same id.
pub proof fn lemma_root_has_ids_distinct(op: Op, delegates: Seq<Did>)
    ensures
        distinct_ids(root_outcome(op, delegates).plan.tasks),
{
    let first = opened(
        op.id,
        op.author,
        op.timestamp,
        op.actions@[0]->Open_title@,
        op.actions@[0]->Open_description@,
        op.actions@[0]->Open_embeds@,
    );
    lemma_run_keeps_ids_distinct(
        first,
        op.actions@.skip(1),
        op.id,
        op.author,
        op.timestamp,
        delegates,
    );
}

/// The edit of a comment that is not there is put off: where the thread
/// shows no comment under the id, an edit by one who is no delegate is
/// passed over. It is no error, and the plan stays as it is.
pub proof fn lemma_edit_is_put_off(
    plan: PlanView,
    id: EntryId,
    body: String,
    embeds: Vec<Embed<Uri>>,
    entry: EntryId,
    author: ActorId,
    timestamp: Timestamp,
    delegates: Seq<Did>,
)
    requires
        !delegates.contains(Did { key: author }),
        !(plan.timeline.contains(id) && plan.comments.dom().contains(id) && plan.comments[id]
            is Some),
    ensures
        authorized(plan, Action::CommentEdit { id, body, embeds }, author, delegates)
            == Authorization::Unknown,
        run(
            plan,
            seq![Action::CommentEdit { id, body, embeds }],
            entry,
            author,
            timestamp,
            delegates,
        ) == (Outcome { plan, error: None }),
{
    lemma_author_of_shown(plan, id);
    let action = Action::CommentEdit { id, body, embeds };
    let actions = seq![action];
    assert(actions[0] == action);
    assert(actions.drop_first().len() == 0);
    assert(run(plan, actions.drop_first(), entry, author, timestamp, delegates) == (Outcome {
        plan,
        error: None,
    }));
}

/// Once the comment is there, the same edit succeeds for the comment's
/// author, under an entry that has not changed the thread: the comment has
/// one more version of its text, which is the edit's, the entry joins the
/// timeline, and nothing else changes.
pub proof fn lemma_edit_by_the_author(
    plan: PlanView,
    id: EntryId,
    body: String,
    embeds: Vec<Embed<Uri>>,
    entry: EntryId,
    author: ActorId,
    timestamp: Timestamp,
    delegates: Seq<Did>,
)
    requires
        plan.timeline.contains(id),
        plan.comments.dom().contains(id),
        plan.comments[id] is Some,
        plan.comments[id]->Some_0.author == author,
        !plan.timeline.contains(entry),
    ensures
        authorized(plan, Action::CommentEdit { id, body, embeds }, author, delegates)
            == Authorization::Allow,
        run(
            plan,
            seq![Action::CommentEdit { id, body, embeds }],
            entry,
            author,
            timestamp,
            delegates,
        ) == (Outcome {
            plan: PlanView {
                timeline: plan.timeline.push(entry),
                comments: plan.comments.insert(
                    id,
                    Some(plan.comments[id]->Some_0.edited(author, timestamp, body@, embeds@)),
                ),
                ..plan
            },
            error: None,
        }),
        plan.comments[id]->Some_0.edited(author, timestamp, body@, embeds@).body() == body@,
{
    lemma_author_of_shown(plan, id);
    let action = Action::CommentEdit { id, body, embeds };
    let actions = seq![action];
    assert(actions[0] == action);
    assert(actions.drop_first().len() == 0);
    let next = step(plan, action, entry, author, timestamp);
    assert(run(next, actions.drop_first(), entry, author, timestamp, delegates) == (Outcome {
        plan: next,
        error: None,
    }));
}

/// The author of a plan may set any status, whatever the status was: the
/// action is allowed, it does not fail, and it leaves the plan with the new
/// status and nothing else changed.
pub proof fn lemma_author_sets_any_status(
    plan: PlanView,
    status: PlanStatus,
    entry: EntryId,
    timestamp: Timestamp,
    delegates: Seq<Did>,
)
    ensures
        authorized(plan, Action::SetStatus { status }, plan.author.id.key, delegates)
            == Authorization::Allow,
        run(
            plan,
            seq![Action::SetStatus { status }],
            entry,
            plan.author.id.key,
            timestamp,
            delegates,
        ) == (Outcome { plan: PlanView { status, ..plan }, error: None }),
{
    let action = Action::SetStatus { status };
    let actions = seq![action];
    assert(actions[0] == action);
    assert(actions.drop_first().len() == 0);
    let next = step(plan, action, entry, plan.author.id.key, timestamp);
    assert(run(next, actions.drop_first(), entry, plan.author.id.key, timestamp, delegates) == (
    Outcome { plan: next, error: None }));
}

/// The plan that an opening action makes: a draft with no tasks, whose
/// thread holds one comment, by the plan's author, with the description as
/// its text.
pub open spec fn opened(
    id: EntryId,
    author: ActorId,
    timestamp: Timestamp,
    title: Seq<char>,
    description: Seq<char>,
    embeds: Seq<Embed<Uri>>,
) -> PlanView {
    PlanView {
        title,
        description,
        status: PlanStatus::Draft,
        tasks: Seq::empty(),
        related_issues: Seq::empty(),
        related_patches: Seq::empty(),
        critical_files: Seq::empty(),
        labels: Seq::empty(),
        assignees: Seq::empty(),
        comments: only(id, CommentView::fresh(id, author, timestamp, description, None, embeds)),
        timeline: seq![id],
        author: Author { id: Did { key: author } },
        created_at: timestamp,
    }
}

/// What comes of the first entry of a log.
pub open spec fn root_outcome(op: Op, delegates: Seq<Did>) -> Outcome
    recommends
        op.actions@.len() > 0,
        op.actions@[0] is Open,
{
    run(
        opened(
            op.id,
            op.author,
            op.timestamp,
            op.actions@[0]->Open_title@,
            op.actions@[0]->Open_description@,
            op.actions@[0]->Open_embeds@,
        ),
        op.actions@.skip(1),
        op.id,
        op.author,
        op.timestamp,
        delegates,
    )
}

impl Action {
    /// The action that gives a plan the title `text`. A text that is no
    /// title is an error.
    pub fn edit_title(text: &str) -> (r: Result<Action, Error>)
        ensures
            match title_of(text@) {
                Ok(t) => r is Ok && r->Ok_0 is EditTitle && r->Ok_0->EditTitle_title@ == t,
                Err(e) => r is Err && r->Err_0 == Error::TitleError(e),
            },
            (r is Err && r->Err_0 == Error::TitleError(TitleError::InvalidTitle)) <==> (
            text@.contains('\n') || text@.contains('\r')),
    {
        match Title::new(text) {
            Ok(title) => Ok(Action::EditTitle { title }),
            Err(e) => Err(Error::TitleError(e)),
        }
    }

    /// Whether the action adds a task to the plan.
    pub fn adds_task(&self) -> (b: bool)
        ensures
            b == (self is AddTask),
    {
        match self {
            Action::AddTask { .. } => true,
            _ => false,
        }
    }

    /// Whether the action is one of the three that change the discussion
    /// thread.
    pub fn changes_thread(&self) -> (b: bool)
        ensures
            b == self.touches_thread(),
    {
        match self {
            Action::Comment { .. } => true,
            Action::CommentEdit { .. } => true,
            Action::CommentRedact { .. } => true,
            _ => false,
        }
    }
}

impl Plan {
    /// Whether the entry `entry` has changed the discussion thread.
    pub fn touched_by(&self, entry: &EntryId) -> (b: bool)
        ensures
            b == self@.timeline.contains(*entry),
    {
        let timeline = timeline_of(&self.thread);
        let mut i: usize = 0;
        while i < timeline.len()
            invariant
                i <= timeline@.len(),
                timeline@ == self@.timeline,
                forall|j: int| 0 <= j < i ==> timeline@[j] != *entry,
            decreases timeline@.len() - i,
        {
            if timeline[i].same(entry) {
                assert(timeline@[i as int] == *entry);
                return true;
            }
            i += 1;
        }
        false
    }

    /// Takes the actions of one entry in turn, as [`run`] says.
    #[verifier::loop_isolation(false)]
    pub fn apply_all(
        &mut self,
        actions: Vec<Action>,
        entry: EntryId,
        author: ActorId,
        timestamp: Timestamp,
        doc: &Doc,
    ) -> (r: Result<(), Error>)
        requires
            old(self).wf(),
            all_wf(actions@),
        ensures
            final(self).wf(),
            final(self)@ == run(old(self)@, actions@, entry, author, timestamp, doc.delegates@).plan,
            match run(old(self)@, actions@, entry, author, timestamp, doc.delegates@).error {
                Some(e) => r is Err && r->Err_0 == e,
                None => r is Ok,
            },
            distinct_ids(old(self)@.tasks) ==> distinct_ids(final(self)@.tasks),
    {
        let ghost start = self@;
        proof {
            if distinct_ids(start.tasks) {
                lemma_run_keeps_ids_distinct(
                    start,
                    actions@,
                    entry,
                    author,
                    timestamp,
                    doc.delegates@,
                );
            }
        }
        let ghost all = actions@;
        let ghost delegates = doc.delegates@;
        assert(all.skip(0) =~= all);
        for action in it: actions
            invariant
                it.seq() == all,
                all_wf(all),
                delegates == doc.delegates@,
                self.wf(),
                run(start, all, entry, author, timestamp, delegates) == run(
                    self@,
                    all.skip(it.index() as int),
                    entry,
                    author,
                    timestamp,
                    delegates,
                ),
        {
            let ghost n = it.index() as int;
            proof {
                assert(all.skip(n)[0] == action);
                assert(all.skip(n).drop_first() =~= all.skip(n + 1));
                assert(all[n].wf());
            }
            let outcome = match self.authorization(&action, &author, doc) {
                Ok(outcome) => outcome,
                Err(e) => {
                    return Err(e);
                },
            };
            match outcome {
                Authorization::Allow => {
                    if action.changes_thread() && self.touched_by(&entry) {
                        return Err(Error::NotAllowed(entry));
                    }
                    if action.adds_task() && holds_id(&self.tasks, &entry) {
                        return Err(Error::NotAllowed(entry));
                    }
                    match self.apply_action(action, entry, author, timestamp) {
                        Ok(()) => {},
                        Err(e) => {
                            return Err(e);
                        },
                    }
                },
                Authorization::Deny => {
                    return Err(Error::NotAuthorized(author, action));
                },
                Authorization::Unknown => {},
            }
        }
        assert(all.skip(all.len() as int) =~= Seq::<Action>::empty());
        Ok(())
    }

    /// Makes the plan of the first entry of a log. The identity document
    /// must be there, and the entry's first action must open the plan; the
    /// actions that follow it are taken in turn, as [`run`] says.
    pub fn from_root(op: Op, doc: Option<&Doc>) -> (r: Result<Plan, Error>)
        requires
            op.wf(),
        ensures
            doc is None ==> r is Err && r->Err_0 == Error::MissingIdentity,
            doc is Some && (op.actions@.len() == 0 || !(op.actions@[0] is Open)) ==> r is Err
                && r->Err_0 is Init && r->Err_0->Init_0@ == NOT_OPENED@,
            doc is Some && op.actions@.len() > 0 && op.actions@[0] is Open ==> match root_outcome(
                op,
                doc->Some_0.delegates@,
            ).error {
                Some(e) => r is Err && r->Err_0 == e,
                None => r is Ok && r->Ok_0.wf() && r->Ok_0@ == root_outcome(
                    op,
                    doc->Some_0.delegates@,
                ).plan,
            },
            r is Ok ==> distinct_ids(r->Ok_0@.tasks),
    {
        let doc = match doc {
            Some(doc) => doc,
            None => {
                return Err(Error::MissingIdentity);
            },
        };
        let ghost all = op.actions@;
        let Op { id, actions, author, timestamp } = op;
        let mut actions = actions;
        if actions.len() == 0 {
            return Err(Error::Init(NOT_OPENED));
        }
        // The first action must be Open.
        let first = actions.remove(0);
        assert(actions@ =~= all.skip(1));
        match first {
            Action::Open { title, description, embeds } => {
                let body = copy_str(description.as_str());
                let thread = thread_new(id, author, body, embeds, timestamp);
                let mut plan = Plan::new(
                    title,
                    description,
                    thread,
                    Author::new(Did::from_key(author)),
                    timestamp,
                );
                match plan.apply_all(actions, id, author, timestamp, doc) {
                    Ok(()) => Ok(plan),
                    Err(e) => Err(e),
                }
            },
            _ => Err(Error::Init(NOT_OPENED)),
        }
    }

    /// Takes the operation of a later entry. The identity document must be
    /// there; the actions are taken in turn, as [`run`] says. The entries
    /// that are concurrent with this one change nothing in that: the order
    /// in which the entries are handed over is the order of the merge.
    pub fn op(&mut self, op: Op, _concurrent: &[EntryId], doc: Option<&Doc>) -> (r: Result<
        (),
        Error,
    >)
        requires
            old(self).wf(),
            op.wf(),
        ensures
            final(self).wf(),
            doc is None ==> r is Err && r->Err_0 == Error::MissingIdentity && final(self)@ == old(
                self,
            )@,
            doc is Some ==> {
                let out = run(
                    old(self)@,
                    op.actions@,
                    op.id,
                    op.author,
                    op.timestamp,
                    doc->Some_0.delegates@,
                );
                &&& final(self)@ == out.plan
                &&& match out.error {
                    Some(e) => r is Err && r->Err_0 == e,
                    None => r is Ok,
                }
            },
            distinct_ids(old(self)@.tasks) ==> distinct_ids(final(self)@.tasks),
    {
        let doc = match doc {
            Some(doc) => doc,
            None => {
                return Err(Error::MissingIdentity);
            },
        };
        let Op { id, actions, author, timestamp } = op;
        self.apply_all(actions, id, author, timestamp, doc)
    }
}

} // verus!
