use std::str::FromStr;

use radicle::cob::Timestamp;
use radicle_plan_cob::actions::Action;
use radicle_plan_cob::identity::Doc;
use radicle_plan_cob::ids::{CommentId, Did, Oid, ParseOidError, PublicKey};
use radicle_plan_cob::prefix::PrefixError;
use radicle_plan_cob::resolve::{
    commit_query, has_prefix, matching_ids, pick_match, resolve_comment_prefix, resolve_id_prefix,
    resolve_task_prefix, short_id, CommitQuery, ResolveError,
};
use radicle_plan_cob::{Op, Plan};

fn id(text: &str) -> Oid {
    Oid::from_str(text).unwrap()
}

fn plan_with_tasks(entries: &[&str]) -> Plan {
    let x = PublicKey::from_bytes([1; 32]);
    let doc = Doc::new(vec![Did::from_key(x)]);
    let open = Action::Open { title: "t".to_string(), description: "d".to_string(), embeds: vec![] };
    let root = id("1111111111111111111111111111111111111111");
    let mut plan =
        Plan::from_root(Op::new(root, vec![open], x, Timestamp::from_secs(0)), Some(&doc)).unwrap();
    for entry in entries {
        let add = Action::AddTask {
            subject: "s".to_string(),
            description: None,
            estimate: None,
            affected_files: vec![],
        };
        plan.op(Op::new(id(entry), vec![add], x, Timestamp::from_secs(1)), &[], Some(&doc)).unwrap();
    }
    plan
}

#[test]
fn test_resolve_task_id_full_oid() {
    let full = "0000000000000000000000000000000000000000";
    let oid = Oid::from_str(full).unwrap();
    assert_eq!(oid.to_string(), full);
}

#[test]
fn test_resolve_comment_prefix_full_oid() {
    let full = "abcdef0000000000000000000000000000000001";
    let oid = Oid::from_str(full).unwrap();
    let cid = CommentId::from(oid);
    assert_eq!(cid.to_string(), full);
}

#[test]
fn an_id_is_written_in_lower_case_hexadecimal() {
    let oid = Oid::from_bytes([
        0x12, 0x34, 0x56, 0x78, 0x9a, 0xbc, 0xde, 0xf0, 0x12, 0x34, 0x56, 0x78, 0x9a, 0xbc, 0xde,
        0xf0, 0x12, 0x34, 0x56, 0x78,
    ]);
    assert_eq!(oid.to_string(), "123456789abcdef0123456789abcdef012345678");
    assert_eq!(id("123456789ABCDEF0123456789abcdef012345678"), oid);
    assert_eq!(Oid::parse("123456789abcdef0123456789abcdef012345678"), Some(oid));
    assert_eq!(short_id(&oid), "1234567");
}

#[test]
fn a_text_that_is_no_id() {
    assert_eq!(Oid::from_str(""), Err(ParseOidError));
    assert_eq!(Oid::from_str("abcdef0"), Err(ParseOidError));
    assert_eq!(Oid::parse("g000000000000000000000000000000000000000"), None);
    assert_eq!(Oid::parse("00000000000000000000000000000000000000000"), None);
    // Forty bytes, but not ASCII.
    assert_eq!(Oid::parse("é00000000000000000000000000000000000000"), None);
}

#[test]
fn a_prefix_is_the_beginning_of_a_text() {
    assert!(has_prefix("abcdef", "abc"));
    assert!(has_prefix("abcdef", ""));
    assert!(has_prefix("abc", "abc"));
    assert!(!has_prefix("abc", "abcd"));
    assert!(!has_prefix("abcdef", "abd"));
    assert!(!has_prefix("abcdef", "bcd"));
}

#[test]
fn ids_that_begin_with_a_prefix() {
    let a = id("abcdef0000000000000000000000000000000001");
    let b = id("abcdef0100000000000000000000000000000002");
    let c = id("0bcdef0000000000000000000000000000000003");
    let ids = vec![a, c, b];
    assert_eq!(matching_ids(&ids, "abcdef0"), vec![a, b]);
    assert_eq!(matching_ids(&ids, "abcdef00"), vec![a]);
    assert_eq!(matching_ids(&ids, "0b"), vec![c]);
    assert_eq!(matching_ids(&ids, "ff"), vec![]);
    assert_eq!(pick_match("ABCDEF00", "abcdef00", &ids), Ok(a));
    assert_eq!(
        pick_match("FF", "ff", &ids),
        Err(ResolveError::NotFound { input: "FF".to_string() })
    );
    assert_eq!(
        pick_match("abcdef0", "abcdef0", &ids),
        Err(ResolveError::Ambiguous { input: "abcdef0".to_string(), matches: vec![a, b] })
    );
}

#[test]
fn a_task_is_found_by_its_id_or_by_a_prefix_of_it() {
    let a = "abcdef0000000000000000000000000000000001";
    let b = "abcdef0100000000000000000000000000000002";
    let plan = plan_with_tasks(&[a, b]);
    // A full id is taken as it is, whether the plan has such a task or not.
    assert_eq!(resolve_task_prefix(a, &plan), Ok(id(a)));
    let other = "9999999999999999999999999999999999999999";
    assert_eq!(resolve_task_prefix(other, &plan), Ok(id(other)));
    assert_eq!(resolve_task_prefix("ABCDEF01", &plan), Ok(id(b)));
    assert_eq!(
        resolve_task_prefix("abcdef0", &plan),
        Err(ResolveError::Ambiguous { input: "abcdef0".to_string(), matches: vec![id(a), id(b)] })
    );
    assert_eq!(
        resolve_task_prefix("1234567", &plan),
        Err(ResolveError::NotFound { input: "1234567".to_string() })
    );
    match resolve_task_prefix("abc", &plan) {
        Err(ResolveError::Prefix(e)) => {
            assert_eq!(e.to_string(), "task ID prefix 'abc' too short: need at least 7 characters")
        }
        other => panic!("{other:?}"),
    }
    assert!(matches!(
        resolve_task_prefix("nothexx", &plan),
        Err(ResolveError::Prefix(PrefixError::NotHex { .. }))
    ));
}

#[test]
fn a_comment_is_found_by_a_prefix_of_its_id() {
    let plan = plan_with_tasks(&[]);
    assert_eq!(
        resolve_comment_prefix("1111111", &plan),
        Ok(id("1111111111111111111111111111111111111111"))
    );
    assert_eq!(
        resolve_comment_prefix("2222222", &plan),
        Err(ResolveError::NotFound { input: "2222222".to_string() })
    );
    match resolve_comment_prefix("zz", &plan) {
        Err(ResolveError::Prefix(e)) => {
            assert_eq!(e.to_string(), "Invalid comment ID 'zz': not a valid hex string")
        }
        other => panic!("{other:?}"),
    }
    assert_eq!(plan.comment_ids(), vec![id("1111111111111111111111111111111111111111")]);
    assert!(plan.task_ids().is_empty());
}

#[test]
fn an_id_is_found_among_those_offered() {
    let a = id("abcdef0000000000000000000000000000000001");
    assert_eq!(resolve_id_prefix("abcdef0", "ID", &vec![a]), Ok(a));
    assert_eq!(
        resolve_id_prefix("abcdef0", "ID", &vec![]),
        Err(ResolveError::NotFound { input: "abcdef0".to_string() })
    );
}

#[test]
fn a_commit_is_named_by_its_id_or_by_a_prefix() {
    let full = "ABCDEF0000000000000000000000000000000001";
    assert_eq!(commit_query(full), Ok(CommitQuery::Id(id(full))));
    assert_eq!(commit_query("ABCDEF00"), Ok(CommitQuery::Prefix("abcdef00".to_string())));
    let longer = "abcdef00000000000000000000000000000000012";
    assert_eq!(commit_query(longer), Ok(CommitQuery::Prefix(longer.to_string())));
    assert!(matches!(commit_query("abc"), Err(PrefixError::TooShort { .. })));
    assert!(matches!(
        commit_query("g000000000000000000000000000000000000000"),
        Err(PrefixError::NotHex { .. })
    ));
}
