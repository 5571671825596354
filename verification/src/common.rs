//! Values that plans share with other collaborative objects: titles, labels
//! and the outcome of an authorization.

use vstd::prelude::*;
use crate::ids::{slice_eq, slice_lt};
use crate::keyset::SetItem;
use crate::text::copy_str;

verus! {

/// The result of an authorization check on an action.
#[derive(Debug, Clone, Copy, PartialEq, Eq, Structural)]
pub enum Authorization {
    /// Action is allowed.
    Allow,
    /// Action is denied.
    Deny,
    /// Authorization cannot be determined: what the action refers to is
    /// missing. The action is put off, not refused.
    Unknown,
}

impl Authorization {
    /// Allow where `allowed` holds, else Deny.
    pub open spec fn of(allowed: bool) -> Authorization {
        if allowed {
            Authorization::Allow
        } else {
            Authorization::Deny
        }
    }

    /// Allow where `allowed` holds, else Deny.
    pub fn from_bool(allowed: bool) -> (a: Authorization)
        ensures
            a == Authorization::of(allowed),
    {
        if allowed {
            Authorization::Allow
        } else {
            Authorization::Deny
        }
    }
}

/// Why a text is no title.
#[derive(Debug, Clone, Copy, PartialEq, Eq, Structural)]
pub enum TitleError {
    /// Nothing is left of the text once the white space around it is gone.
    EmptyTitle,
    /// The text holds a line feed or a carriage return.
    InvalidTitle,
}

/// What becomes of a text that is offered as a title: the title's text, or
/// why there is none.
pub uninterp spec fn title_of(text: Seq<char>) -> Result<Seq<char>, TitleError>;

/// `Title::new`: what comes back depends on the text alone. A text with a
/// line feed or a carriage return is invalid, and only such a text. A title
/// is never empty.
#[verifier::external_body]
fn title_new(text: &str) -> (r: Result<String, TitleError>)
    ensures
        match title_of(text@) {
            Ok(t) => r is Ok && r->Ok_0@ == t,
            Err(e) => r is Err && r->Err_0 == e,
        },
        (r is Err && r->Err_0 == TitleError::InvalidTitle) <==> (text@.contains('\n')
            || text@.contains('\r')),
        r is Ok ==> r->Ok_0@.len() > 0,
{
    match radicle::cob::Title::new(text) {
        Ok(title) => Ok(title.to_string()),
        Err(radicle::cob::TitleError::EmptyTitle) => Err(TitleError::EmptyTitle),
        Err(radicle::cob::TitleError::InvalidTitle) => Err(TitleError::InvalidTitle),
    }
}

/// The title of a collaborative object. One that [`Title::new`] made is a
/// line of text, not empty, with no white space around it.
#[derive(Debug, Clone, PartialEq, Eq)]
pub struct Title {
    text: String,
}

impl View for Title {
    type V = Seq<char>;

    closed spec fn view(&self) -> Seq<char> {
        self.text@
    }
}

impl Title {
    /// Makes a title of a text. A text with a line feed or a carriage
    /// return is invalid; else the white space around the text is dropped,
    /// and the text must not be empty then.
    pub fn new(text: &str) -> (r: Result<Title, TitleError>)
        ensures
            match title_of(text@) {
                Ok(t) => r is Ok && r->Ok_0@ == t,
                Err(e) => r is Err && r->Err_0 == e,
            },
            (r is Err && r->Err_0 == TitleError::InvalidTitle) <==> (text@.contains('\n')
                || text@.contains('\r')),
            r is Ok ==> r->Ok_0@.len() > 0,
    {
        match title_new(text) {
            Ok(text) => Ok(Title { text }),
            Err(e) => Err(e),
        }
    }

    /// A title as a log holds it: the text is taken as it stands.
    pub fn from_raw(text: String) -> (t: Title)
        ensures
            t@ == text@,
    {
        Title { text }
    }

    /// The title's text.
    pub fn as_str(&self) -> (s: &str)
        ensures
            s@ == self@,
    {
        self.text.as_str()
    }

    /// The title's text.
    pub fn to_string(&self) -> (s: String)
        ensures
            s@ == self@,
    {
        copy_str(self.text.as_str())
    }
}

/// Why a name is no label.
#[derive(Debug, Clone, PartialEq, Eq)]
pub enum LabelError {
    /// The name is empty or holds white space.
    InvalidName(String),
}

/// Whether `c` is white space: a character with Unicode's property
/// `White_Space`.
pub open spec fn is_white_space(c: char) -> bool {
    ||| ('\u{9}' <= c && c <= '\u{d}')
    ||| c == ' '
    ||| c == '\u{85}'
    ||| c == '\u{a0}'
    ||| c == '\u{1680}'
    ||| ('\u{2000}' <= c && c <= '\u{200a}')
    ||| c == '\u{2028}'
    ||| c == '\u{2029}'
    ||| c == '\u{202f}'
    ||| c == '\u{205f}'
    ||| c == '\u{3000}'
}

/// Whether a name can be a label: it is not empty and holds no white
/// space.
pub open spec fn label_accepts(name: Seq<char>) -> bool {
    name.len() > 0 && forall|i: int| 0 <= i < name.len() ==> !is_white_space(#[trigger] name[i])
}

/// `Label::new`: a name is taken unless it is empty or holds white space,
/// and the label has the name as it was given.
#[verifier::external_body]
fn label_new(name: &str) -> (r: Option<String>)
    ensures
        r is Some <==> label_accepts(name@),
        r is Some ==> r->Some_0@ == name@,
{
    match radicle::cob::Label::new(name) {
        Ok(label) => Some(String::from(label)),
        Err(_) => None,
    }
}

/// A label. One that [`Label::new`] made is a name without white space.
#[derive(Debug, Clone, PartialEq, Eq, PartialOrd, Ord, Hash)]
pub struct Label {
    name: String,
}

impl View for Label {
    type V = Seq<char>;

    closed spec fn view(&self) -> Seq<char> {
        self.name@
    }
}

impl Label {
    /// Makes a label of a name. The name must not be empty nor hold white
    /// space; the error gives the name back.
    pub fn new(name: &str) -> (r: Result<Label, LabelError>)
        ensures
            r is Ok <==> label_accepts(name@),
            r is Ok ==> r->Ok_0@ == name@,
            r is Err ==> r->Err_0->InvalidName_0@ == name@,
    {
        match label_new(name) {
            Some(name) => Ok(Label { name }),
            None => Err(LabelError::InvalidName(copy_str(name))),
        }
    }

    /// A label as a log holds it: the name is taken as it stands.
    pub fn from_raw(name: String) -> (l: Label)
        ensures
            l@ == name@,
    {
        Label { name }
    }

    /// The label's name.
    pub fn name(&self) -> (s: &str)
        ensures
            s@ == self@,
    {
        self.name.as_str()
    }
}

/// A label is found and ordered by the UTF-8 encoding of its name.
impl SetItem for Label {
    open spec fn key(&self) -> Seq<u8> {
        vstd::utf8::encode_utf8(self@)
    }

    fn key_eq(&self, other: &Self) -> (r: bool) {
        slice_eq(self.name.as_str().as_bytes(), other.name.as_str().as_bytes())
    }

    fn key_lt(&self, other: &Self) -> (r: bool) {
        slice_lt(self.name.as_str().as_bytes(), other.name.as_str().as_bytes())
    }
}

} // verus!
