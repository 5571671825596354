use radicle_plan_cob::common::Label;
use radicle_plan_cob::ids::{Did, Oid, PublicKey};
use radicle_plan_cob::keyset::KeySet;

fn oid(n: u8) -> Oid {
    let mut bytes = [0u8; 20];
    bytes[0] = n;
    Oid::from_bytes(bytes)
}

#[test]
fn a_set_keeps_its_items_in_order_and_once() {
    let mut set = KeySet::new();
    assert!(set.is_empty());
    assert!(set.insert(oid(5)));
    assert!(set.insert(oid(1)));
    assert!(set.insert(oid(9)));
    assert!(!set.insert(oid(5)));
    assert_eq!(set.len(), 3);
    assert_eq!(set.items(), &vec![oid(1), oid(5), oid(9)]);
    assert!(set.contains(&oid(9)));
    assert!(!set.contains(&oid(2)));
}

#[test]
fn a_set_gives_up_what_it_holds_and_nothing_else() {
    let mut set = KeySet::from_vec(vec![oid(3), oid(1), oid(2)]);
    assert!(!set.remove(&oid(7)));
    assert_eq!(set.len(), 3);
    assert!(set.remove(&oid(2)));
    assert!(!set.remove(&oid(2)));
    assert_eq!(set.items(), &vec![oid(1), oid(3)]);
}

#[test]
fn ids_are_ordered_byte_by_byte() {
    let mut low = [0u8; 20];
    low[19] = 255;
    let mut high = [0u8; 20];
    high[0] = 1;
    let set = KeySet::from_vec(vec![Oid::from_bytes(high), Oid::from_bytes(low)]);
    assert_eq!(set.items(), &vec![Oid::from_bytes(low), Oid::from_bytes(high)]);
}

#[test]
fn sets_are_the_same_whatever_the_order_they_were_filled_in() {
    let a = KeySet::from_vec(vec![oid(3), oid(1), oid(2), oid(1)]);
    let b = KeySet::from_vec(vec![oid(1), oid(2), oid(3)]);
    let c = KeySet::from_vec(vec![oid(1), oid(2)]);
    assert!(a.same_as(&b));
    assert!(!a.same_as(&c));
    assert!(!c.same_as(&a));
    assert_eq!(a, b);
}

#[test]
fn strings_are_ordered_as_their_bytes_are() {
    let set = KeySet::from_vec(vec![
        "src/b.rs".to_string(),
        "src/a.rs".to_string(),
        "src".to_string(),
        "Src".to_string(),
        "é".to_string(),
        "src/a.rs".to_string(),
    ]);
    let expected: Vec<String> =
        ["Src", "src", "src/a.rs", "src/b.rs", "é"].iter().map(|s| s.to_string()).collect();
    assert_eq!(set.items(), &expected);
}

#[test]
fn labels_and_assignees_can_be_held() {
    let labels = KeySet::from_vec(vec![Label::new("bug").unwrap(), Label::new("api").unwrap()]);
    assert_eq!(labels.items()[0].name(), "api");
    assert_eq!(labels.items()[1].name(), "bug");
    let a = Did::from_key(PublicKey::from_bytes([2; 32]));
    let b = Did::from_key(PublicKey::from_bytes([1; 32]));
    let dids = KeySet::from_vec(vec![a, b, a]);
    assert_eq!(dids.items(), &vec![b, a]);
}
