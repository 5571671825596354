use radicle_plan_cob::common::{Authorization, Label, LabelError, Title, TitleError};
use radicle_plan_cob::identity::Doc;
use radicle_plan_cob::ids::{Did, PublicKey};

#[test]
fn a_title_is_one_line_that_is_not_empty() {
    assert_eq!(Title::new(""), Err(TitleError::EmptyTitle));
    assert_eq!(Title::new(" "), Err(TitleError::EmptyTitle));
    assert_eq!(Title::new("\t"), Err(TitleError::EmptyTitle));
    assert_eq!(Title::new("foo\nbar"), Err(TitleError::InvalidTitle));
    assert_eq!(Title::new("foobar\n"), Err(TitleError::InvalidTitle));
    assert_eq!(Title::new("foo\rbar"), Err(TitleError::InvalidTitle));
    assert_eq!(Title::new(" valid title ").unwrap().as_str(), "valid title");
    assert_eq!(Title::new("Ship v2").unwrap().to_string(), "Ship v2");
}

#[test]
fn a_label_is_a_name_without_white_space() {
    assert_eq!(Label::new("bug").unwrap().name(), "bug");
    assert_eq!(Label::new(""), Err(LabelError::InvalidName(String::new())));
    assert_eq!(Label::new("two words"), Err(LabelError::InvalidName("two words".to_string())));
    assert_eq!(Label::new("tab\t"), Err(LabelError::InvalidName("tab\t".to_string())));
}

#[test]
fn authorization_of_a_test() {
    assert_eq!(Authorization::from_bool(true), Authorization::Allow);
    assert_eq!(Authorization::from_bool(false), Authorization::Deny);
}

#[test]
fn a_delegate_is_one_that_the_document_names() {
    let a = Did::from_key(PublicKey::from_bytes([1; 32]));
    let b = Did::from_key(PublicKey::from_bytes([2; 32]));
    let c = Did::from_key(PublicKey::from_bytes([3; 32]));
    let doc = Doc::new(vec![a, b]);
    assert!(doc.is_delegate(&a));
    assert!(doc.is_delegate(&b));
    assert!(!doc.is_delegate(&c));
    assert!(!Doc::new(vec![]).is_delegate(&a));
}

#[test]
fn a_title_and_a_label_of_a_log_are_taken_as_they_stand() {
    assert_eq!(Title::from_raw(" two\nlines ".to_string()).as_str(), " two\nlines ");
    assert_eq!(Label::from_raw("two words".to_string()).name(), "two words");
    assert_eq!(Title::from_raw("t".to_string()), Title::new("t").unwrap());
}

fn is_white_space(c: char) -> bool {
    matches!(
        c,
        '\u{9}'..='\u{d}'
            | ' '
            | '\u{85}'
            | '\u{a0}'
            | '\u{1680}'
            | '\u{2000}'..='\u{200a}'
            | '\u{2028}'
            | '\u{2029}'
            | '\u{202f}'
            | '\u{205f}'
            | '\u{3000}'
    )
}

#[test]
fn a_label_is_refused_for_white_space_of_any_kind_and_for_nothing_else() {
    let mut refused = 0;
    for c in '\0'..=char::MAX {
        let taken = Label::new(&c.to_string()).is_ok();
        assert_eq!(taken, !is_white_space(c), "{:?}", c);
        if !taken {
            refused += 1;
        }
    }
    assert_eq!(refused, 25);
    assert!(Label::new("a\u{2003}b").is_err());
    assert!(Label::new("a\u{200b}b").is_ok());
}
