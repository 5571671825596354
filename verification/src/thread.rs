//! The discussion thread of a plan.
//!
//! The thread itself is radicle's. This module states what its operations do
//! to the comments it holds, each comment taken by its plain values.

use vstd::prelude::*;
use radicle::cob::thread::Thread;
use radicle::cob::{Embed, Timestamp, Uri};
use crate::ids::{ActorId, CommentId, EntryId, Oid, PublicKey};

verus! {

/// radicle's `Timestamp`: when an operation was made. It is carried
/// through as it stands.
#[verifier::external_type_specification]
#[verifier::external_body]
pub struct ExTimestamp(radicle::cob::Timestamp);

/// radicle's `Uri`: where embedded content is found. It is carried through
/// as it stands.
#[verifier::external_type_specification]
#[verifier::external_body]
pub struct ExUri(radicle::cob::Uri);

/// radicle's `Embed`: content embedded in a text. It is carried through as
/// it stands.
#[verifier::external_type_specification]
#[verifier::external_body]
#[verifier::reject_recursive_types(T)]
pub struct ExEmbed<T>(radicle::cob::Embed<T>);

/// radicle's `Never`: the place in the code that a comment of a plan does
/// not have.
#[verifier::external_type_specification]
#[verifier::external_body]
pub struct ExNever(radicle::cob::thread::Never);

/// radicle's `Comment`, as a thread holds it. What plans read of it is
/// handed out as [`CommentData`].
#[verifier::external_type_specification]
#[verifier::external_body]
#[verifier::reject_recursive_types(T)]
pub struct ExComment<T>(radicle::cob::thread::Comment<T>);

/// radicle's `Thread`: the comments under each id, and the timeline of
/// the entries that have changed it. See [`thread_entries`] and
/// [`thread_timeline`].
#[verifier::external_type_specification]
#[verifier::external_body]
#[verifier::reject_recursive_types(T)]
pub struct ExThread<T>(radicle::cob::thread::Thread<T>);

/// `Timestamp::clone`: a timestamp is copied as it stands.
pub assume_specification[ <radicle::cob::Timestamp as Clone>::clone ](
    t: &radicle::cob::Timestamp,
) -> (r: radicle::cob::Timestamp)
    ensures
        r == *t,
;

/// `Thread::clone`: a copy of a thread. Nothing is said of it.
pub assume_specification<T>[ <radicle::cob::thread::Thread<T> as Clone>::clone ](
    t: &radicle::cob::thread::Thread<T>,
) -> (r: radicle::cob::thread::Thread<T>) where T: Clone
;

/// One version of a comment's text.
#[derive(Clone, Debug, PartialEq, Eq)]
pub struct EditData {
    /// Who wrote this version.
    pub author: ActorId,
    /// When it was written.
    pub timestamp: Timestamp,
    /// The text.
    pub body: String,
    /// What is embedded in the text.
    pub embeds: Vec<Embed<Uri>>,
}

/// An [`EditData`] as a mathematical value.
pub struct EditView {
    pub author: ActorId,
    pub timestamp: Timestamp,
    pub body: Seq<char>,
    pub embeds: Seq<Embed<Uri>>,
}

impl View for EditData {
    type V = EditView;

    open spec fn view(&self) -> EditView {
        EditView {
            author: self.author,
            timestamp: self.timestamp,
            body: self.body@,
            embeds: self.embeds@,
        }
    }
}

/// A comment of a thread.
#[derive(Clone, Debug, PartialEq, Eq)]
pub struct CommentData {
    /// The comment's id: that of the entry that made it.
    pub id: CommentId,
    /// Who wrote the comment.
    pub author: ActorId,
    /// The versions of the comment's text, oldest first.
    pub edits: Vec<EditData>,
    /// The comment that this one replies to.
    pub reply_to: Option<CommentId>,
}

/// A [`CommentData`] as a mathematical value.
pub struct CommentView {
    pub id: CommentId,
    pub author: ActorId,
    pub edits: Seq<EditView>,
    pub reply_to: Option<CommentId>,
}

impl View for CommentData {
    type V = CommentView;

    open spec fn view(&self) -> CommentView {
        CommentView {
            id: self.id,
            author: self.author,
            edits: Seq::new(self.edits@.len(), |i: int| self.edits@[i]@),
            reply_to: self.reply_to,
        }
    }
}

impl CommentView {
    /// A comment as it stands when it is made: one version of its text.
    pub open spec fn fresh(
        id: CommentId,
        author: ActorId,
        timestamp: Timestamp,
        body: Seq<char>,
        reply_to: Option<CommentId>,
        embeds: Seq<Embed<Uri>>,
    ) -> CommentView {
        CommentView { id, author, edits: seq![EditView { author, timestamp, body, embeds }], reply_to }
    }

    /// The comment with one more version of its text.
    pub open spec fn edited(
        self,
        author: ActorId,
        timestamp: Timestamp,
        body: Seq<char>,
        embeds: Seq<Embed<Uri>>,
    ) -> CommentView {
        CommentView { edits: self.edits.push(EditView { author, timestamp, body, embeds }), ..self }
    }

    /// The comment's text: its latest version.
    pub open spec fn body(self) -> Seq<char> {
        self.edits.last().body
    }
}

impl CommentData {
    /// The comment's text: its latest version. Without a version the text
    /// is empty.
    pub fn body(&self) -> (s: &str)
        ensures
            self.edits@.len() > 0 ==> s@ == self@.body(),
            self.edits@.len() == 0 ==> s@.len() == 0,
    {
        let n = self.edits.len();
        if n == 0 {
            let e: &str = "";
            proof {
                reveal_strlit("");
            }
            e
        } else {
            self.edits[n - 1].body.as_str()
        }
    }
}

/// Why an operation on a thread failed.
#[derive(Clone, Copy, Debug, PartialEq, Eq)]
pub enum ThreadError {
    /// An entry that the operation depends on is missing.
    Missing(EntryId),
    /// The comment made under this entry is invalid.
    Comment(EntryId),
    /// The thread failed for a reason that no operation on comments gives.
    Other,
}

/// The comments that a thread holds, each under its id. A comment that was
/// redacted is still held, as `None`.
pub uninterp spec fn thread_entries(t: Thread) -> Map<CommentId, Option<CommentView>>;

/// The ids of the entries that have changed a thread, oldest first.
pub uninterp spec fn thread_timeline(t: Thread) -> Seq<EntryId>;

/// The comments that are shown: for each id of the timeline in turn, the
/// comment held under it, unless there is none or it was redacted. The id
/// of a comment that is shown is the id under which it is held.
pub open spec fn listed(
    timeline: Seq<EntryId>,
    entries: Map<CommentId, Option<CommentView>>,
) -> Seq<CommentView>
    decreases timeline.len(),
{
    if timeline.len() == 0 {
        Seq::empty()
    } else {
        let before = listed(timeline.drop_last(), entries);
        let id = timeline.last();
        if entries.dom().contains(id) && entries[id] is Some {
            before.push(CommentView { id, ..entries[id]->Some_0 })
        } else {
            before
        }
    }
}

/// The thread that holds `comment` under `id` and nothing else.
pub open spec fn only(id: CommentId, comment: CommentView) -> Map<CommentId, Option<CommentView>> {
    Map::<CommentId, Option<CommentView>>::empty().insert(id, Some(comment))
}

/// `Thread::new` on a new comment: a thread that holds one comment, made
/// under `id`, with one version of its text and no comment that it replies
/// to. Its timeline is `id` alone.
#[verifier::external_body]
pub(crate) fn thread_new(
    id: EntryId,
    author: ActorId,
    body: String,
    embeds: Vec<Embed<Uri>>,
    timestamp: Timestamp,
) -> (t: Thread)
    ensures
        thread_timeline(t) == seq![id],
        thread_entries(t) == only(id, CommentView::fresh(id, author, timestamp, body@, None, embeds@)),
{
    let author = radicle::crypto::PublicKey::from_bytes(author.bytes);
    let comment = radicle::cob::thread::Comment::new(author, body, None, None, embeds, timestamp);
    Thread::new(radicle::git::Oid::from_sha1(id.bytes), comment)
}

/// `Thread::timeline`: the ids of the entries that have changed the thread,
/// oldest first.
#[verifier::external_body]
pub(crate) fn timeline_of(t: &Thread) -> (v: Vec<EntryId>)
    ensures
        v@ == thread_timeline(*t),
{
    t.timeline().map(|e| Oid { bytes: e.into_sha1().unwrap_or_default() }).collect()
}

/// `Thread::comments`: the comments that are shown, in the order of the
/// timeline, each with the id under which the thread holds it, its author,
/// the versions of its text and the comment that it replies to.
#[verifier::external_body]
pub(crate) fn comments_of(t: &Thread) -> (v: Vec<CommentData>)
    ensures
        Seq::new(v@.len(), |i: int| v@[i]@) == listed(thread_timeline(*t), thread_entries(*t)),
{
    t.comments().map(|(id, c)| CommentData {
        id: Oid { bytes: id.into_sha1().unwrap_or_default() },
        author: PublicKey { bytes: c.author().into_inner() },
        reply_to: c.reply_to().map(|r| Oid { bytes: r.into_sha1().unwrap_or_default() }),
        edits: c.edits().map(|e| EditData {
            author: PublicKey { bytes: e.author.into_inner() },
            timestamp: e.timestamp,
            body: e.body.clone(),
            embeds: e.embeds.clone(),
        }).collect(),
    }).collect()
}

/// What `thread::comment` answers: an empty text is refused, then a reply
/// to a comment that the thread does not hold.
pub open spec fn comment_error(
    entries: Map<CommentId, Option<CommentView>>,
    id: EntryId,
    body: Seq<char>,
    reply_to: Option<CommentId>,
) -> Option<ThreadError> {
    if body.len() == 0 {
        Some(ThreadError::Comment(id))
    } else if reply_to is Some && !entries.dom().contains(reply_to->Some_0) {
        Some(ThreadError::Missing(reply_to->Some_0))
    } else {
        None
    }
}

/// `thread::comment`: adds a comment under `id`. When it is refused the
/// thread does not change; else `id` joins the timeline and the comment is
/// held under `id`. The entry must not have changed the thread before.
#[verifier::external_body]
pub(crate) fn thread_comment(
    thread: &mut Thread,
    id: EntryId,
    author: ActorId,
    timestamp: Timestamp,
    body: String,
    reply_to: Option<CommentId>,
    embeds: Vec<Embed<Uri>>,
) -> (r: Result<(), ThreadError>)
    requires
        !thread_timeline(*old(thread)).contains(id),
    ensures
        match comment_error(thread_entries(*old(thread)), id, body@, reply_to) {
            Some(e) => r is Err && r->Err_0 == e && *final(thread) == *old(thread),
            None => {
                &&& r is Ok
                &&& thread_timeline(*final(thread)) == thread_timeline(*old(thread)).push(id)
                &&& thread_entries(*final(thread)) == thread_entries(*old(thread)).insert(
                    id,
                    Some(CommentView::fresh(id, author, timestamp, body@, reply_to, embeds@)),
                )
            },
        },
{
    let entry = radicle::git::Oid::from_sha1(id.bytes);
    let author = radicle::crypto::PublicKey::from_bytes(author.bytes);
    let reply = reply_to.map(|r| radicle::git::Oid::from_sha1(r.bytes));
    match radicle::cob::thread::comment(thread, entry, author, timestamp, body, reply, None, embeds) {
        Ok(()) => Ok(()),
        Err(radicle::cob::thread::Error::Comment(e)) => Err(ThreadError::Comment(Oid { bytes: e.into_sha1().unwrap_or_default() })),
        Err(radicle::cob::thread::Error::Missing(e)) => Err(ThreadError::Missing(Oid { bytes: e.into_sha1().unwrap_or_default() })),
        Err(_) => Err(ThreadError::Other),
    }
}

/// What an edit of the comment under `comment` leaves in a thread: the
/// comment with one more version of its text. A comment that was redacted
/// stays redacted, and where the thread holds nothing under `comment`
/// nothing is added.
pub open spec fn edited_entries(
    entries: Map<CommentId, Option<CommentView>>,
    comment: CommentId,
    author: ActorId,
    timestamp: Timestamp,
    body: Seq<char>,
    embeds: Seq<Embed<Uri>>,
) -> Map<CommentId, Option<CommentView>> {
    if entries.dom().contains(comment) && entries[comment] is Some {
        entries.insert(comment, Some(entries[comment]->Some_0.edited(author, timestamp, body, embeds)))
    } else {
        entries
    }
}

/// `thread::edit`: gives the comment under `comment` a new version of its
/// text. `id` joins the timeline whatever comes of it; the edit is refused
/// where the thread holds nothing under `comment`. The entry must not have
/// changed the thread before.
#[verifier::external_body]
pub(crate) fn thread_edit(
    thread: &mut Thread,
    id: EntryId,
    author: ActorId,
    comment: CommentId,
    timestamp: Timestamp,
    body: String,
    embeds: Vec<Embed<Uri>>,
) -> (r: Result<(), ThreadError>)
    requires
        !thread_timeline(*old(thread)).contains(id),
    ensures
        thread_timeline(*final(thread)) == thread_timeline(*old(thread)).push(id),
        thread_entries(*final(thread)) == edited_entries(
            thread_entries(*old(thread)),
            comment,
            author,
            timestamp,
            body@,
            embeds@,
        ),
        thread_entries(*old(thread)).dom().contains(comment) ==> r is Ok,
        !thread_entries(*old(thread)).dom().contains(comment) ==> r is Err && r->Err_0
            == ThreadError::Missing(comment),
{
    let entry = radicle::git::Oid::from_sha1(id.bytes);
    let author = radicle::crypto::PublicKey::from_bytes(author.bytes);
    let target = radicle::git::Oid::from_sha1(comment.bytes);
    match radicle::cob::thread::edit(thread, entry, author, target, timestamp, body, embeds) {
        Ok(()) => Ok(()),
        Err(radicle::cob::thread::Error::Missing(e)) => Err(ThreadError::Missing(Oid { bytes: e.into_sha1().unwrap_or_default() })),
        Err(_) => Err(ThreadError::Other),
    }
}

/// `thread::redact`: redacts the comment under `comment`. Where the thread
/// holds nothing under `comment` it is refused, naming the entry `id`, and
/// the thread does not change; else `id` joins the timeline and the comment
/// is held as redacted. The entry must not have changed the thread before.
#[verifier::external_body]
pub(crate) fn thread_redact(thread: &mut Thread, id: EntryId, comment: CommentId) -> (r: Result<
    (),
    ThreadError,
>)
    requires
        !thread_timeline(*old(thread)).contains(id),
    ensures
        thread_entries(*old(thread)).dom().contains(comment) ==> {
            &&& r is Ok
            &&& thread_timeline(*final(thread)) == thread_timeline(*old(thread)).push(id)
            &&& thread_entries(*final(thread)) == thread_entries(*old(thread)).insert(comment, None)
        },
        !thread_entries(*old(thread)).dom().contains(comment) ==> {
            &&& r is Err
            &&& r->Err_0 == ThreadError::Missing(id)
            &&& *final(thread) == *old(thread)
        },
{
    let entry = radicle::git::Oid::from_sha1(id.bytes);
    let target = radicle::git::Oid::from_sha1(comment.bytes);
    match radicle::cob::thread::redact(thread, entry, target) {
        Ok(()) => Ok(()),
        Err(radicle::cob::thread::Error::Missing(e)) => Err(ThreadError::Missing(Oid { bytes: e.into_sha1().unwrap_or_default() })),
        Err(_) => Err(ThreadError::Other),
    }
}

} // verus!
