use radicle::cob::Timestamp;
use radicle_plan_cob::actions::Action;
use radicle_plan_cob::common::{Authorization, Title};
use radicle_plan_cob::error::Error;
use radicle_plan_cob::identity::Doc;
use radicle_plan_cob::ids::{Did, Oid, PublicKey};
use radicle_plan_cob::op::Op;
use radicle_plan_cob::plan::Plan;
use radicle_plan_cob::status::PlanStatus;
use radicle_plan_cob::thread::ThreadError;

fn oid(n: u8) -> Oid {
    let mut bytes = [0u8; 20];
    bytes[19] = n;
    Oid::from_bytes(bytes)
}

fn key(n: u8) -> PublicKey {
    PublicKey::from_bytes([n; 32])
}

fn doc() -> Doc {
    // The one delegate is none of the actors below.
    Doc::new(vec![Did::from_key(key(200))])
}

fn at(secs: u64) -> Timestamp {
    Timestamp::from_secs(secs)
}

fn open(title: &str, description: &str) -> Action {
    Action::Open { title: title.to_string(), description: description.to_string(), embeds: vec![] }
}

fn opened(by: PublicKey) -> Plan {
    let op = Op::new(oid(1), vec![open("Ship v2", "desc")], by, at(10));
    Plan::from_root(op, Some(&doc())).unwrap()
}

fn add_task(subject: &str) -> Action {
    Action::AddTask {
        subject: subject.to_string(),
        description: None,
        estimate: None,
        affected_files: vec![],
    }
}

#[test]
fn open_add_task_link_commit() {
    let x = key(1);
    let mut plan = opened(x);
    assert_eq!(plan.title(), "Ship v2");
    assert_eq!(plan.description(), "desc");
    assert_eq!(*plan.status(), PlanStatus::Draft);
    assert_eq!(plan.author().id, Did::from_key(x));
    assert_eq!(plan.created_at(), at(10));
    assert!(plan.tasks().is_empty());
    assert!(plan.unblocked_tasks().is_empty());
    assert!(!plan.all_tasks_complete());

    let comments = plan.comments();
    assert_eq!(comments.len(), 1);
    assert_eq!(comments[0].id, oid(1));
    assert_eq!(comments[0].author, x);
    assert_eq!(comments[0].body(), "desc");
    assert_eq!(comments[0].reply_to, None);
    let root = plan.root().unwrap();
    assert_eq!(root, comments[0]);

    let op = Op::new(oid(2), vec![add_task("Write tests")], x, at(20));
    plan.op(op, &[], Some(&doc())).unwrap();
    assert_eq!(plan.tasks().len(), 1);
    let task = &plan.tasks()[0];
    assert_eq!(task.id, oid(2));
    assert_eq!(task.subject, "Write tests");
    assert_eq!(task.author, Did::from_key(x));
    assert_eq!(task.created_at, at(20));
    assert!(!task.is_done());
    assert!(!task.is_blocked());
    assert_eq!(plan.unblocked_tasks().len(), 1);
    assert_eq!(plan.done_count(), 0);

    let op = Op::new(
        oid(3),
        vec![Action::LinkTaskToCommit { task_id: oid(2), commit: oid(77) }],
        x,
        at(30),
    );
    plan.op(op, &[], Some(&doc())).unwrap();
    let task = plan.task(&oid(2)).unwrap();
    assert!(task.is_done());
    assert_eq!(task.linked_commit, Some(oid(77)));
    assert!(plan.unblocked_tasks().is_empty());
    assert!(plan.all_tasks_complete());
    assert_eq!(plan.done_count(), 1);
}

#[test]
fn another_actor_may_not_edit_the_title() {
    let x = key(1);
    let y = key(2);
    let mut plan = opened(x);
    let before = plan.clone();
    let action = Action::EditTitle { title: Title::new("Other").unwrap() };
    assert_eq!(plan.authorization(&action, &y, &doc()), Ok(Authorization::Deny));
    assert_eq!(plan.authorization(&action, &x, &doc()), Ok(Authorization::Allow));

    let op = Op::new(oid(2), vec![action.clone()], y, at(20));
    assert_eq!(plan.op(op, &[], Some(&doc())), Err(Error::NotAuthorized(y, action.clone())));
    assert_eq!(plan, before);

    let op = Op::new(oid(3), vec![action], x, at(30));
    plan.op(op, &[], Some(&doc())).unwrap();
    assert_eq!(plan.title(), "Other");
}

#[test]
fn edit_of_a_comment_that_is_not_there_yet_is_put_off() {
    let x = key(1);
    let y = key(2);
    let mut plan = opened(x);
    let before = plan.clone();
    let edit = Action::CommentEdit { id: oid(5), body: "second thoughts".to_string(), embeds: vec![] };
    assert_eq!(plan.authorization(&edit, &y, &doc()), Ok(Authorization::Unknown));

    // The action is passed over: no error, and nothing changes.
    let op = Op::new(oid(4), vec![edit.clone()], y, at(20));
    assert_eq!(plan.op(op, &[], Some(&doc())), Ok(()));
    assert_eq!(plan, before);

    // The comment arrives.
    let comment = Action::Comment { body: "first".to_string(), reply_to: Some(oid(1)), embeds: vec![] };
    plan.op(Op::new(oid(5), vec![comment], y, at(30)), &[], Some(&doc())).unwrap();
    assert_eq!(plan.comments().len(), 2);
    assert_eq!(plan.comments()[1].body(), "first");
    assert_eq!(plan.comments()[1].reply_to, Some(oid(1)));

    // Now the author of the comment may edit it, and nobody else.
    assert_eq!(plan.authorization(&edit, &y, &doc()), Ok(Authorization::Allow));
    assert_eq!(plan.authorization(&edit, &x, &doc()), Ok(Authorization::Deny));
    plan.op(Op::new(oid(6), vec![edit], y, at(40)), &[], Some(&doc())).unwrap();
    let comments = plan.comments();
    assert_eq!(comments[1].body(), "second thoughts");
    assert_eq!(comments[1].edits.len(), 2);
    assert_eq!(comments[1].edits[0].body, "first");
    assert_eq!(comments[1].edits[1].timestamp, at(40));
}

#[test]
fn the_author_may_set_any_status_after_any_other() {
    let x = key(1);
    let mut plan = opened(x);
    let all = [
        PlanStatus::Completed,
        PlanStatus::Draft,
        PlanStatus::Archived,
        PlanStatus::Approved,
        PlanStatus::InProgress,
        PlanStatus::Draft,
    ];
    for (i, status) in all.into_iter().enumerate() {
        let action = Action::SetStatus { status };
        assert_eq!(plan.authorization(&action, &x, &doc()), Ok(Authorization::Allow));
        plan.op(Op::new(oid(10 + i as u8), vec![action], x, at(50)), &[], Some(&doc())).unwrap();
        assert_eq!(*plan.status(), status);
    }
}

#[test]
fn a_delegate_may_do_everything() {
    let x = key(1);
    let d = key(200);
    let mut plan = opened(x);
    let action = Action::EditDescription { description: "new".to_string(), embeds: vec![] };
    assert_eq!(plan.authorization(&action, &d, &doc()), Ok(Authorization::Allow));
    plan.op(Op::new(oid(2), vec![action], d, at(20)), &[], Some(&doc())).unwrap();
    assert_eq!(plan.description(), "new");
    // The root comment keeps the first description.
    assert_eq!(plan.root().unwrap().body(), "desc");
}

#[test]
fn from_root_wants_the_document_and_an_opening_action() {
    let x = key(1);
    let op = Op::new(oid(1), vec![open("t", "d")], x, at(1));
    assert_eq!(Plan::from_root(op, None), Err(Error::MissingIdentity));
    let op = Op::new(oid(1), vec![add_task("t")], x, at(1));
    assert!(matches!(Plan::from_root(op, Some(&doc())), Err(Error::Init(_))));
    let op = Op::new(oid(1), vec![], x, at(1));
    assert!(matches!(Plan::from_root(op, Some(&doc())), Err(Error::Init(_))));
}

#[test]
fn from_root_takes_the_actions_after_the_first() {
    let x = key(1);
    let actions = vec![
        open("t", "d"),
        add_task("one"),
        Action::SetStatus { status: PlanStatus::Approved },
    ];
    let plan = Plan::from_root(Op::new(oid(1), actions, x, at(1)), Some(&doc())).unwrap();
    assert_eq!(plan.tasks().len(), 1);
    assert_eq!(plan.tasks()[0].id, oid(1));
    assert_eq!(*plan.status(), PlanStatus::Approved);

    // A second opening action is applied as an edit of title and description.
    let actions = vec![open("t", "d"), open("t2", "d2")];
    let plan = Plan::from_root(Op::new(oid(1), actions, x, at(1)), Some(&doc())).unwrap();
    assert_eq!(plan.title(), "t2");
    assert_eq!(plan.description(), "d2");
    assert_eq!(plan.comments().len(), 1);
}

#[test]
fn op_without_the_document_changes_nothing() {
    let x = key(1);
    let mut plan = opened(x);
    let before = plan.clone();
    let op = Op::new(oid(2), vec![add_task("one")], x, at(1));
    assert_eq!(plan.op(op, &[], None), Err(Error::MissingIdentity));
    assert_eq!(plan, before);
}

#[test]
fn a_denied_action_keeps_what_was_applied_before_it() {
    let x = key(1);
    let y = key(2);
    let mut plan = opened(x);
    // Anyone may comment; the edit of the title is denied.
    let actions = vec![
        Action::Comment { body: "hello".to_string(), reply_to: None, embeds: vec![] },
        Action::EditTitle { title: Title::new("Other").unwrap() },
        add_task("never"),
    ];
    let r = plan.op(Op::new(oid(2), actions, y, at(20)), &[oid(9)], Some(&doc()));
    assert!(matches!(r, Err(Error::NotAuthorized(_, Action::EditTitle { .. }))));
    assert_eq!(plan.comments().len(), 2);
    assert_eq!(plan.title(), "Ship v2");
    assert!(plan.tasks().is_empty());
}

#[test]
fn an_entry_changes_the_thread_once() {
    let x = key(1);
    let mut plan = opened(x);
    let actions = vec![
        Action::Comment { body: "one".to_string(), reply_to: None, embeds: vec![] },
        Action::Comment { body: "two".to_string(), reply_to: None, embeds: vec![] },
    ];
    let r = plan.op(Op::new(oid(2), actions, x, at(20)), &[], Some(&doc()));
    assert_eq!(r, Err(Error::NotAllowed(oid(2))));
    assert_eq!(plan.comments().len(), 2);
    assert!(plan.touched_by(&oid(2)));
    assert!(!plan.touched_by(&oid(3)));

    // The entry that opened the plan has changed the thread already.
    let actions = vec![
        open("t", "d"),
        Action::Comment { body: "one".to_string(), reply_to: None, embeds: vec![] },
    ];
    let r = Plan::from_root(Op::new(oid(1), actions, x, at(1)), Some(&doc()));
    assert_eq!(r, Err(Error::NotAllowed(oid(1))));
}

#[test]
fn the_thread_refuses_an_empty_comment_and_a_reply_to_nothing() {
    let x = key(1);
    let mut plan = opened(x);
    let before = plan.clone();
    let empty = Action::Comment { body: String::new(), reply_to: None, embeds: vec![] };
    let r = plan.op(Op::new(oid(2), vec![empty], x, at(20)), &[], Some(&doc()));
    assert_eq!(r, Err(Error::Thread(ThreadError::Comment(oid(2)))));
    assert_eq!(plan, before);

    let reply = Action::Comment { body: "re".to_string(), reply_to: Some(oid(42)), embeds: vec![] };
    let r = plan.op(Op::new(oid(3), vec![reply], x, at(20)), &[], Some(&doc()));
    assert_eq!(r, Err(Error::Thread(ThreadError::Missing(oid(42)))));
    assert_eq!(plan, before);
}

#[test]
fn redaction_hides_a_comment_and_an_edit_of_it_changes_nothing_shown() {
    let x = key(1);
    let y = key(2);
    let d = key(200);
    let mut plan = opened(x);
    let comment = Action::Comment { body: "first".to_string(), reply_to: None, embeds: vec![] };
    plan.op(Op::new(oid(2), vec![comment], y, at(20)), &[], Some(&doc())).unwrap();

    let redact = Action::CommentRedact { id: oid(2) };
    assert_eq!(plan.authorization(&redact, &x, &doc()), Ok(Authorization::Deny));
    assert_eq!(plan.authorization(&redact, &y, &doc()), Ok(Authorization::Allow));
    plan.op(Op::new(oid(3), vec![redact.clone()], y, at(30)), &[], Some(&doc())).unwrap();
    assert_eq!(plan.comments().len(), 1);
    assert!(plan.touched_by(&oid(3)));

    // The comment is not shown any more: to its author the outcome is unknown.
    assert_eq!(plan.authorization(&redact, &y, &doc()), Ok(Authorization::Unknown));
    // A delegate may still edit it; the thread takes the edit and shows nothing new.
    let edit = Action::CommentEdit { id: oid(2), body: "late".to_string(), embeds: vec![] };
    plan.op(Op::new(oid(4), vec![edit], d, at(40)), &[], Some(&doc())).unwrap();
    assert_eq!(plan.comments().len(), 1);
    assert!(plan.touched_by(&oid(4)));

    // A delegate redacts what the thread does not hold: the thread names the entry.
    let redact = Action::CommentRedact { id: oid(99) };
    let r = plan.op(Op::new(oid(5), vec![redact], d, at(50)), &[], Some(&doc()));
    assert_eq!(r, Err(Error::Thread(ThreadError::Missing(oid(5)))));
    assert!(!plan.touched_by(&oid(5)));

    // A delegate edits what the thread does not hold: refused, but the entry is in the timeline.
    let edit = Action::CommentEdit { id: oid(98), body: "x".to_string(), embeds: vec![] };
    let r = plan.op(Op::new(oid(6), vec![edit], d, at(60)), &[], Some(&doc()));
    assert_eq!(r, Err(Error::Thread(ThreadError::Missing(oid(98)))));
    assert!(plan.touched_by(&oid(6)));

    // Once the root is redacted too, nothing is shown and there is no root.
    plan.op(Op::new(oid(7), vec![Action::CommentRedact { id: oid(1) }], x, at(70)), &[], Some(&doc()))
        .unwrap();
    assert!(plan.comments().is_empty());
    assert_eq!(plan.root(), None);
}

#[test]
fn an_entry_makes_one_task() {
    let x = key(1);
    let mut plan = opened(x);
    let actions = vec![add_task("one"), add_task("two"), Action::SetStatus { status: PlanStatus::Approved }];
    let r = plan.op(Op::new(oid(2), actions, x, at(20)), &[], Some(&doc()));
    assert_eq!(r, Err(Error::NotAllowed(oid(2))));
    assert_eq!(plan.tasks().len(), 1);
    assert_eq!(plan.tasks()[0].subject, "one");
    assert_eq!(*plan.status(), PlanStatus::Draft);

    // The same entry once more makes no second task either.
    let r = plan.op(Op::new(oid(2), vec![add_task("again")], x, at(21)), &[], Some(&doc()));
    assert_eq!(r, Err(Error::NotAllowed(oid(2))));
    assert_eq!(plan.tasks().len(), 1);

    // A comment and a task under one entry are one of each.
    let actions = vec![
        Action::Comment { body: "note".to_string(), reply_to: None, embeds: vec![] },
        add_task("three"),
    ];
    plan.op(Op::new(oid(3), actions, x, at(30)), &[], Some(&doc())).unwrap();
    assert_eq!(plan.tasks().len(), 2);
    assert_eq!(plan.comments().len(), 2);

    let actions = vec![open("t", "d"), add_task("a"), add_task("b")];
    let r = Plan::from_root(Op::new(oid(1), actions, x, at(1)), Some(&doc()));
    assert_eq!(r, Err(Error::NotAllowed(oid(1))));
}
