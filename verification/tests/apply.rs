use radicle::cob::{Embed, Timestamp, Uri};
use radicle_plan_cob::actions::Action;
use radicle_plan_cob::apply::{edit_task, reorder, without_task};
use radicle_plan_cob::common::{Authorization, Label};
use radicle_plan_cob::identity::Doc;
use radicle_plan_cob::ids::{Did, Oid, PublicKey};
use radicle_plan_cob::keyset::KeySet;
use radicle_plan_cob::{Error, Op, Plan, PlanStatus, Task};

fn oid(n: u8) -> Oid {
    let mut bytes = [0u8; 20];
    bytes[19] = n;
    Oid::from_bytes(bytes)
}

fn key(n: u8) -> PublicKey {
    PublicKey::from_bytes([n; 32])
}

fn doc() -> Doc {
    Doc::new(vec![Did::from_key(key(200))])
}

fn at(secs: u64) -> Timestamp {
    Timestamp::from_secs(secs)
}

fn author() -> PublicKey {
    key(1)
}

fn opened() -> Plan {
    let open =
        Action::Open { title: "Ship v2".to_string(), description: "desc".to_string(), embeds: vec![] };
    Plan::from_root(Op::new(oid(1), vec![open], author(), at(10)), Some(&doc())).unwrap()
}

fn add_task(subject: &str) -> Action {
    Action::AddTask {
        subject: subject.to_string(),
        description: Some("about ".to_string() + subject),
        estimate: Some("2h".to_string()),
        affected_files: vec!["src/lib.rs".to_string()],
    }
}

/// A plan with the tasks a, b, c, made under the entries 11, 12, 13.
fn with_tasks() -> Plan {
    let mut plan = opened();
    for (i, subject) in ["a", "b", "c"].iter().enumerate() {
        apply(&mut plan, 11 + i as u8, add_task(subject));
    }
    plan
}

fn apply(plan: &mut Plan, entry: u8, action: Action) {
    plan.apply_action(action, oid(entry), author(), at(entry as u64)).unwrap();
}

fn subjects(plan: &Plan) -> Vec<String> {
    plan.tasks().iter().map(|t| t.subject.clone()).collect()
}

#[test]
fn tasks_are_added_at_the_end() {
    let plan = with_tasks();
    assert_eq!(subjects(&plan), ["a", "b", "c"]);
    let task = &plan.tasks()[1];
    assert_eq!(task.id, oid(12));
    assert_eq!(task.description.as_deref(), Some("about b"));
    assert_eq!(task.estimate.as_deref(), Some("2h"));
    assert_eq!(task.affected_files, ["src/lib.rs"]);
    assert_eq!(task.author, Did::from_key(author()));
    assert_eq!(task.created_at, at(12));
    assert!(task.blocked_by.is_empty());
    assert_eq!(task.linked_issue, None);
    assert_eq!(task.linked_commit, None);
    assert_eq!(plan.task(&oid(12)), Some(task));
    assert_eq!(plan.task(&oid(99)), None);
}

#[test]
fn an_edit_replaces_the_fields_it_names_and_no_others() {
    let mut plan = with_tasks();
    let before = plan.tasks()[1].clone();
    apply(
        &mut plan,
        20,
        Action::EditTask {
            task_id: oid(12),
            subject: Some("B".to_string()),
            description: Some(None),
            estimate: None,
            affected_files: None,
        },
    );
    let task = plan.tasks()[1].clone();
    assert_eq!(task.subject, "B");
    assert_eq!(task.description, None);
    assert_eq!(task.estimate, before.estimate);
    assert_eq!(task.affected_files, before.affected_files);
    assert_eq!(task.id, before.id);
    assert_eq!(task.created_at, before.created_at);
    assert_eq!(subjects(&plan), ["a", "B", "c"]);

    apply(
        &mut plan,
        21,
        Action::EditTask {
            task_id: oid(12),
            subject: None,
            description: Some(Some("again".to_string())),
            estimate: Some(None),
            affected_files: Some(vec![]),
        },
    );
    let task = &plan.tasks()[1];
    assert_eq!(task.subject, "B");
    assert_eq!(task.description.as_deref(), Some("again"));
    assert_eq!(task.estimate, None);
    assert!(task.affected_files.is_empty());
}

#[test]
fn an_edit_that_names_nothing_changes_nothing() {
    let mut plan = with_tasks();
    let before = plan.clone();
    for task_id in [oid(12), oid(99)] {
        apply(
            &mut plan,
            20,
            Action::EditTask {
                task_id,
                subject: None,
                description: None,
                estimate: None,
                affected_files: None,
            },
        );
        assert_eq!(plan, before);
    }
}

#[test]
fn actions_on_a_task_that_is_not_there_change_nothing() {
    let mut plan = with_tasks();
    let before = plan.clone();
    apply(
        &mut plan,
        20,
        Action::EditTask {
            task_id: oid(99),
            subject: Some("x".to_string()),
            description: None,
            estimate: None,
            affected_files: None,
        },
    );
    apply(&mut plan, 21, Action::LinkTaskToCommit { task_id: oid(99), commit: oid(1) });
    apply(&mut plan, 22, Action::LinkTaskToIssue { task_id: oid(99), issue_id: oid(1) });
    apply(&mut plan, 23, Action::SetTaskBlockedBy { task_id: oid(99), blocked_by: vec![oid(11)] });
    apply(&mut plan, 24, Action::RemoveTask { task_id: oid(99) });
    assert_eq!(plan, before);
}

#[test]
fn the_old_status_action_does_nothing() {
    let mut plan = with_tasks();
    let before = plan.clone();
    let action =
        Action::SetTaskStatus { task_id: oid(12), status: serde_json::Value::from("completed") };
    assert_eq!(plan.authorization(&action, &author(), &doc()), Ok(Authorization::Allow));
    assert_eq!(plan.authorization(&action, &key(9), &doc()), Ok(Authorization::Deny));
    apply(&mut plan, 20, action);
    assert_eq!(plan, before);
}

#[test]
fn a_task_is_removed_and_the_others_keep_their_order() {
    let mut plan = with_tasks();
    apply(&mut plan, 20, Action::RemoveTask { task_id: oid(12) });
    assert_eq!(subjects(&plan), ["a", "c"]);
    apply(&mut plan, 21, Action::RemoveTask { task_id: oid(12) });
    assert_eq!(subjects(&plan), ["a", "c"]);
}

#[test]
fn a_new_order_loses_no_task() {
    let mut plan = with_tasks();
    // A stale and partial order: 99 is no task, and a is not named.
    apply(&mut plan, 20, Action::ReorderTasks { task_ids: vec![oid(13), oid(99), oid(12)] });
    assert_eq!(subjects(&plan), ["c", "b", "a"]);
    apply(&mut plan, 21, Action::ReorderTasks { task_ids: vec![] });
    assert_eq!(subjects(&plan), ["c", "b", "a"]);
    apply(&mut plan, 22, Action::ReorderTasks { task_ids: vec![oid(11), oid(12), oid(13)] });
    assert_eq!(subjects(&plan), ["a", "b", "c"]);
    let mut ids: Vec<Oid> = plan.tasks().iter().map(|t| t.id).collect();
    ids.sort();
    assert_eq!(ids, [oid(11), oid(12), oid(13)]);
}

#[test]
fn an_order_that_names_a_task_twice_shows_it_once() {
    let plan = with_tasks();
    let tasks: Vec<Task> = plan.tasks().to_vec();
    let again = reorder(&tasks, &vec![oid(12), oid(12)]);
    let names: Vec<&str> = again.iter().map(|t| t.subject.as_str()).collect();
    assert_eq!(names, ["b", "a", "c"]);

    let mut plan = with_tasks();
    apply(
        &mut plan,
        20,
        Action::ReorderTasks { task_ids: vec![oid(13), oid(11), oid(13), oid(99), oid(11)] },
    );
    assert_eq!(subjects(&plan), ["c", "a", "b"]);
    assert_eq!(plan.tasks()[0].id, oid(13));
    assert_eq!(plan.tasks()[0].description.as_deref(), Some("about c"));
}

#[test]
fn helpers_on_lists_of_tasks() {
    let plan = with_tasks();
    let mut tasks: Vec<Task> = plan.tasks().to_vec();
    let fewer = without_task(tasks.clone(), &oid(11));
    assert_eq!(fewer.len(), 2);
    assert_eq!(fewer[0].id, oid(12));
    edit_task(&mut tasks, &oid(13), Some("C".to_string()), None, None, None);
    assert_eq!(tasks[2].subject, "C");
    assert_eq!(tasks[0], plan.tasks()[0]);
}

#[test]
fn a_task_can_be_worked_on_when_its_blockers_are_done() {
    let mut plan = with_tasks();
    apply(&mut plan, 20, Action::SetTaskBlockedBy { task_id: oid(12), blocked_by: vec![oid(11)] });
    // c is blocked by a task that the plan does not have: it never becomes free.
    apply(&mut plan, 21, Action::SetTaskBlockedBy { task_id: oid(13), blocked_by: vec![oid(99)] });
    assert!(plan.tasks()[1].is_blocked());
    let free: Vec<Oid> = plan.unblocked_tasks().iter().map(|t| t.id).collect();
    assert_eq!(free, [oid(11)]);

    apply(&mut plan, 22, Action::LinkTaskToCommit { task_id: oid(11), commit: oid(70) });
    let free: Vec<Oid> = plan.unblocked_tasks().iter().map(|t| t.id).collect();
    assert_eq!(free, [oid(12)]);
    assert_eq!(plan.done_count(), 1);
    assert!(!plan.all_tasks_complete());

    // Tasks that block one another are tolerated, and neither is free.
    apply(&mut plan, 23, Action::SetTaskBlockedBy { task_id: oid(13), blocked_by: vec![oid(12)] });
    apply(&mut plan, 24, Action::SetTaskBlockedBy { task_id: oid(12), blocked_by: vec![oid(13)] });
    assert!(plan.unblocked_tasks().is_empty());

    apply(&mut plan, 25, Action::SetTaskBlockedBy { task_id: oid(12), blocked_by: vec![] });
    let free: Vec<Oid> = plan.unblocked_tasks().iter().map(|t| t.id).collect();
    assert_eq!(free, [oid(12)]);
}

#[test]
fn a_task_is_linked_to_an_issue_and_to_a_commit() {
    let mut plan = with_tasks();
    apply(&mut plan, 20, Action::LinkTaskToIssue { task_id: oid(12), issue_id: oid(50) });
    assert_eq!(plan.tasks()[1].linked_issue, Some(oid(50)));
    assert!(!plan.tasks()[1].is_done());
    apply(&mut plan, 21, Action::LinkTaskToCommit { task_id: oid(12), commit: oid(60) });
    apply(&mut plan, 22, Action::LinkTaskToCommit { task_id: oid(12), commit: oid(61) });
    assert_eq!(plan.tasks()[1].linked_commit, Some(oid(61)));
    assert!(plan.tasks()[1].is_done());
    assert_eq!(plan.tasks()[1].linked_issue, Some(oid(50)));
}

#[test]
fn issues_and_patches_are_linked_once() {
    let mut plan = opened();
    apply(&mut plan, 20, Action::LinkIssue { issue_id: oid(9) });
    apply(&mut plan, 21, Action::LinkIssue { issue_id: oid(3) });
    apply(&mut plan, 22, Action::LinkIssue { issue_id: oid(9) });
    assert_eq!(plan.related_issues(), [oid(3), oid(9)]);
    assert!(plan.related_patches().is_empty());
    apply(&mut plan, 23, Action::UnlinkIssue { issue_id: oid(9) });
    apply(&mut plan, 24, Action::UnlinkIssue { issue_id: oid(9) });
    assert_eq!(plan.related_issues(), [oid(3)]);

    apply(&mut plan, 25, Action::LinkPatch { patch_id: oid(4) });
    apply(&mut plan, 26, Action::LinkPatch { patch_id: oid(4) });
    assert_eq!(plan.related_patches(), [oid(4)]);
    apply(&mut plan, 27, Action::UnlinkPatch { patch_id: oid(5) });
    assert_eq!(plan.related_patches(), [oid(4)]);
    apply(&mut plan, 28, Action::UnlinkPatch { patch_id: oid(4) });
    assert!(plan.related_patches().is_empty());
    assert_eq!(plan.related_issues(), [oid(3)]);
}

#[test]
fn critical_files_are_a_set_of_paths() {
    let mut plan = opened();
    for (i, path) in ["src/b.rs", "src/a.rs", "src/b.rs"].iter().enumerate() {
        apply(&mut plan, 20 + i as u8, Action::AddCriticalFile { path: path.to_string() });
    }
    assert_eq!(plan.critical_files(), ["src/a.rs", "src/b.rs"]);
    apply(&mut plan, 30, Action::RemoveCriticalFile { path: "src/c.rs".to_string() });
    apply(&mut plan, 31, Action::RemoveCriticalFile { path: "src/a.rs".to_string() });
    assert_eq!(plan.critical_files(), ["src/b.rs"]);
}

#[test]
fn title_description_and_status_are_replaced() {
    let mut plan = opened();
    let embed = Embed { name: "note.txt".to_string(), content: "git:abc".parse::<Uri>().unwrap() };
    apply(
        &mut plan,
        20,
        Action::EditDescription { description: "more".to_string(), embeds: vec![embed] },
    );
    assert_eq!(plan.description(), "more");
    assert_eq!(plan.title(), "Ship v2");
    apply(&mut plan, 21, Action::SetStatus { status: PlanStatus::Completed });
    apply(&mut plan, 22, Action::SetStatus { status: PlanStatus::Draft });
    assert_eq!(*plan.status(), PlanStatus::Draft);
    apply(
        &mut plan,
        23,
        Action::Open { title: "T".to_string(), description: "D".to_string(), embeds: vec![] },
    );
    assert_eq!(plan.title(), "T");
    assert_eq!(plan.description(), "D");
    assert_eq!(plan.comments().len(), 1);
}

#[test]
fn only_a_delegate_changes_labels_and_assignees() {
    let mut plan = opened();
    let delegate = key(200);
    let labels = KeySet::from_vec(vec![Label::new("bug").unwrap(), Label::new("api").unwrap()]);
    let dids = KeySet::from_vec(vec![Did::from_key(key(5))]);
    let label = Action::Label { labels: labels.clone() };
    let assign = Action::Assign { assignees: dids.clone() };
    assert_eq!(plan.authorization(&label, &author(), &doc()), Ok(Authorization::Deny));
    assert_eq!(plan.authorization(&assign, &author(), &doc()), Ok(Authorization::Deny));
    assert_eq!(plan.authorization(&label, &delegate, &doc()), Ok(Authorization::Allow));
    assert_eq!(plan.authorization(&assign, &delegate, &doc()), Ok(Authorization::Allow));

    // The sets as they are pass for anyone: that changes nothing.
    let same = Action::Label { labels: KeySet::new() };
    assert_eq!(plan.authorization(&same, &key(9), &doc()), Ok(Authorization::Allow));

    let r = plan.op(Op::new(oid(20), vec![label.clone()], author(), at(20)), &[], Some(&doc()));
    assert_eq!(r, Err(Error::NotAuthorized(author(), label.clone())));
    assert!(plan.labels().is_empty());

    plan.op(Op::new(oid(21), vec![label.clone(), assign], delegate, at(21)), &[], Some(&doc()))
        .unwrap();
    let names: Vec<&str> = plan.labels().iter().map(|l| l.name()).collect();
    assert_eq!(names, ["api", "bug"]);
    assert_eq!(plan.assignees(), [Did::from_key(key(5))]);
    // Now the same labels pass for the author too, in whatever order they were given.
    let again =
        Action::Label { labels: KeySet::from_vec(vec![Label::new("api").unwrap(), Label::new("bug").unwrap()]) };
    assert_eq!(plan.authorization(&again, &author(), &doc()), Ok(Authorization::Allow));

    plan.op(
        Op::new(oid(22), vec![Action::Label { labels: KeySet::new() }], delegate, at(22)),
        &[],
        Some(&doc()),
    )
    .unwrap();
    assert!(plan.labels().is_empty());
}

#[test]
fn comments_carry_what_is_embedded() {
    let mut plan = opened();
    let embed = Embed { name: "note.txt".to_string(), content: "git:abc".parse::<Uri>().unwrap() };
    apply(
        &mut plan,
        20,
        Action::Comment { body: "see".to_string(), reply_to: None, embeds: vec![embed.clone()] },
    );
    let comments = plan.comments();
    assert_eq!(comments[1].id, oid(20));
    assert_eq!(comments[1].author, author());
    assert_eq!(comments[1].edits.len(), 1);
    assert_eq!(comments[1].edits[0].embeds, vec![embed]);
    assert_eq!(comments[1].edits[0].timestamp, at(20));
    assert_eq!(comments[1].edits[0].author, author());
    assert_eq!(plan.thread().len(), 2);
}

#[test]
fn the_same_log_gives_the_same_plan() {
    let log = || {
        vec![
            Op::new(oid(11), vec![add_task("a"), Action::SetStatus { status: PlanStatus::Approved }], author(), at(11)),
            Op::new(
                oid(12),
                vec![Action::Comment { body: "hi".to_string(), reply_to: Some(oid(1)), embeds: vec![] }],
                key(2),
                at(12),
            ),
            Op::new(oid(13), vec![add_task("b"), Action::LinkIssue { issue_id: oid(7) }], author(), at(13)),
            Op::new(oid(14), vec![Action::ReorderTasks { task_ids: vec![oid(13)] }], author(), at(14)),
            Op::new(oid(15), vec![Action::CommentRedact { id: oid(12) }], key(2), at(15)),
        ]
    };
    let reduce = || {
        let mut plan = opened();
        for op in log() {
            plan.op(op, &[], Some(&doc())).unwrap();
        }
        plan
    };
    let one = reduce();
    let other = reduce();
    assert_eq!(one, other);
    assert_eq!(subjects(&one), ["b", "a"]);
    assert_eq!(one.comments().len(), 1);
}

#[test]
fn a_plan_is_made_of_its_parts() {
    let plan = with_tasks();
    let again = Plan::from_parts(
        plan.title().to_string(),
        plan.description().to_string(),
        *plan.status(),
        plan.tasks().to_vec(),
        KeySet::from_vec(plan.related_issues().to_vec()),
        KeySet::from_vec(plan.related_patches().to_vec()),
        KeySet::from_vec(plan.critical_files().to_vec()),
        KeySet::from_vec(plan.labels().to_vec()),
        KeySet::from_vec(plan.assignees().to_vec()),
        plan.thread().clone(),
        *plan.author(),
        plan.created_at(),
    );
    assert_eq!(again, plan);
}
