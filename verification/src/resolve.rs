//! Finding an id from the first digits of its text.

use vstd::prelude::*;
use vstd::string::StrSliceExecFns;
use crate::ids::{hex_text, oid_parsed, CommentId, ObjectId, Oid, TaskId};
use crate::plan::{comment_views, Plan};
use crate::prefix::{all_hex, checked_prefix, is_all_hex, is_hex_digit, validate_hex_prefix,
    PrefixError};
use crate::text::{copy_str, lowercase};

verus! {

/// Why a text names no id.
#[derive(Debug, Clone, PartialEq, Eq)]
pub enum ResolveError {
    /// The text is no prefix of an id.
    Prefix(PrefixError),
    /// No id begins with the text.
    NotFound {
        /// The text as it was given.
        input: String,
    },
    /// More than one id begins with the text.
    Ambiguous {
        /// The text as it was given.
        input: String,
        /// The ids that begin with it, in the order in which they were
        /// offered.
        matches: Vec<Oid>,
    },
}

/// Whether `text` begins with `prefix`.
pub open spec fn starts_with(text: Seq<char>, prefix: Seq<char>) -> bool {
    prefix.len() <= text.len() && text.take(prefix.len() as int) == prefix
}

/// Whether `text` begins with `prefix`.
pub fn has_prefix(text: &str, prefix: &str) -> (b: bool)
    ensures
        b == starts_with(text@, prefix@),
{
    let n = prefix.unicode_len();
    if n > text.unicode_len() {
        return false;
    }
    let mut i: usize = 0;
    while i < n
        invariant
            n == prefix@.len(),
            n <= text@.len(),
            i <= n,
            forall|j: int| 0 <= j < i ==> text@[j] == prefix@[j],
        decreases n - i,
    {
        if text.get_char(i) != prefix.get_char(i) {
            assert(text@.take(n as int)[i as int] != prefix@[i as int]);
            return false;
        }
        i += 1;
    }
    assert(text@.take(n as int) =~= prefix@);
    true
}

/// The ids of `ids` whose text begins with `prefix`, in their order.
pub open spec fn matching(ids: Seq<Oid>, prefix: Seq<char>) -> Seq<Oid>
    decreases ids.len(),
{
    if ids.len() == 0 {
        Seq::empty()
    } else {
        let before = matching(ids.drop_last(), prefix);
        if starts_with(hex_text(ids.last().bytes@), prefix) {
            before.push(ids.last())
        } else {
            before
        }
    }
}

/// The ids of `ids` whose text begins with `prefix`, in their order.
pub fn matching_ids(ids: &Vec<Oid>, prefix: &str) -> (found: Vec<Oid>)
    ensures
        found@ == matching(ids@, prefix@),
{
    let mut found: Vec<Oid> = Vec::new();
    let mut i: usize = 0;
    while i < ids.len()
        invariant
            i <= ids@.len(),
            found@ == matching(ids@.take(i as int), prefix@),
        decreases ids@.len() - i,
    {
        proof {
            assert(ids@.take(i + 1).drop_last() =~= ids@.take(i as int));
            assert(ids@.take(i + 1).last() == ids@[i as int]);
        }
        let text = ids[i].to_string();
        if has_prefix(text.as_str(), prefix) {
            found.push(ids[i]);
        }
        i += 1;
    }
    assert(ids@.take(i as int) =~= ids@);
    found
}

/// Whether `r` is the answer for the ids `found` that begin with `input`:
/// the id where there is one, and an error where there is none or more than
/// one.
pub open spec fn answers(r: Result<Oid, ResolveError>, input: Seq<char>, found: Seq<Oid>) -> bool {
    if found.len() == 0 {
        r is Err && r->Err_0 is NotFound && r->Err_0->NotFound_input@ == input
    } else if found.len() == 1 {
        r is Ok && r->Ok_0 == found[0]
    } else {
        r is Err && r->Err_0 is Ambiguous && r->Err_0->Ambiguous_input@ == input
            && r->Err_0->Ambiguous_matches@ == found
    }
}

/// Whether `r` is the answer for the text `input`, where `parsed` is the
/// id that the whole text stands for, `checked` is what the check of the
/// text as a prefix gave, and `ids` are the ids to choose from.
///
/// A text that is an id stands for that id, whether it was offered or not.
pub open spec fn resolves(
    r: Result<Oid, ResolveError>,
    input: Seq<char>,
    parsed: Option<Oid>,
    checked: Result<Seq<char>, Seq<char>>,
    ids: Seq<Oid>,
) -> bool {
    match parsed {
        Some(id) => r is Ok && r->Ok_0 == id,
        None => match checked {
            Ok(prefix) => answers(r, input, matching(ids, prefix)),
            Err(message) => r is Err && r->Err_0 is Prefix && r->Err_0->Prefix_0.message()
                == message,
        },
    }
}

/// Chooses among `ids` the one whose text begins with `prefix`; `input` is
/// the text as it was given, for the error.
pub fn pick_match(input: &str, prefix: &str, ids: &Vec<Oid>) -> (r: Result<Oid, ResolveError>)
    ensures
        answers(r, input@, matching(ids@, prefix@)),
{
    let found = matching_ids(ids, prefix);
    if found.len() == 0 {
        Err(ResolveError::NotFound { input: copy_str(input) })
    } else if found.len() == 1 {
        Ok(found[0])
    } else {
        Err(ResolveError::Ambiguous { input: copy_str(input), matches: found })
    }
}

/// Resolve an id from its full text or from a short prefix, searching
/// `ids`. `label` says in the error what the text was meant to name.
pub fn resolve_id_prefix(s: &str, label: &str, ids: &Vec<Oid>) -> (r: Result<Oid, ResolveError>)
    ensures
        resolves(
            r,
            s@,
            if vstd::string::is_ascii(s) {
                oid_parsed(s@)
            } else {
                None
            },
            checked_prefix(s@, lowercase(s@), label@),
            ids@,
        ),
{
    // Try the full id first.
    if let Some(id) = Oid::parse(s) {
        return Ok(id);
    }
    match validate_hex_prefix(s, label) {
        Ok(prefix) => pick_match(s, prefix.as_str(), ids),
        Err(e) => Err(ResolveError::Prefix(e)),
    }
}

impl Plan {
    /// The ids of the tasks, in the tasks' order.
    pub fn task_ids(&self) -> (ids: Vec<TaskId>)
        ensures
            ids@.len() == self@.tasks.len(),
            forall|i: int| 0 <= i < ids@.len() ==> ids@[i] == self@.tasks[i].id,
    {
        let mut ids: Vec<TaskId> = Vec::new();
        let mut i: usize = 0;
        while i < self.tasks.len()
            invariant
                i <= self.tasks@.len(),
                ids@.len() == i,
                forall|j: int| 0 <= j < i ==> ids@[j] == self.tasks@[j].id,
            decreases self.tasks@.len() - i,
        {
            ids.push(self.tasks[i].id);
            i += 1;
        }
        ids
    }

    /// The ids of the comments that are shown, in the order of the
    /// timeline.
    pub fn comment_ids(&self) -> (ids: Vec<CommentId>)
        ensures
            ids@.len() == self@.shown().len(),
            forall|i: int| 0 <= i < ids@.len() ==> ids@[i] == self@.shown()[i].id,
    {
        let comments = self.comments();
        let mut ids: Vec<CommentId> = Vec::new();
        let mut i: usize = 0;
        while i < comments.len()
            invariant
                i <= comments@.len(),
                ids@.len() == i,
                comment_views(comments@) == self@.shown(),
                forall|j: int| 0 <= j < i ==> ids@[j] == comments@[j].id,
            decreases comments@.len() - i,
        {
            ids.push(comments[i].id);
            i += 1;
        }
        assert forall|j: int| 0 <= j < ids@.len() implies ids@[j] == self@.shown()[j].id by {
            assert(comment_views(comments@)[j] == comments@[j]@);
        }
        ids
    }
}

/// Resolve a task ID from a full ID or short prefix, searching the plan's
/// task list.
pub fn resolve_task_prefix(s: &str, plan: &Plan) -> (r: Result<TaskId, ResolveError>)
    ensures
        resolves(
            r,
            s@,
            if vstd::string::is_ascii(s) {
                oid_parsed(s@)
            } else {
                None
            },
            checked_prefix(s@, lowercase(s@), "task ID"@),
            Seq::new(plan@.tasks.len(), |i: int| plan@.tasks[i].id),
        ),
{
    let ids = plan.task_ids();
    assert(ids@ =~= Seq::new(plan@.tasks.len(), |i: int| plan@.tasks[i].id));
    resolve_id_prefix(s, "task ID", &ids)
}

/// Resolve a comment ID from a full ID or short prefix, searching the
/// comments of the plan that are shown.
pub fn resolve_comment_prefix(s: &str, plan: &Plan) -> (r: Result<CommentId, ResolveError>)
    ensures
        resolves(
            r,
            s@,
            if vstd::string::is_ascii(s) {
                oid_parsed(s@)
            } else {
                None
            },
            checked_prefix(s@, lowercase(s@), "comment ID"@),
            Seq::new(plan@.shown().len(), |i: int| plan@.shown()[i].id),
        ),
{
    let ids = plan.comment_ids();
    assert(ids@ =~= Seq::new(plan@.shown().len(), |i: int| plan@.shown()[i].id));
    resolve_id_prefix(s, "comment ID", &ids)
}

/// What a text that names a commit asks for.
#[derive(Debug, Clone, PartialEq, Eq)]
pub enum CommitQuery {
    /// The commit with this id.
    Id(Oid),
    /// The one commit whose id begins with this prefix: which it is, the
    /// repository knows.
    Prefix(String),
}

/// Reads a text that names a commit: forty hexadecimal digits are the
/// commit's id, and anything else must be a prefix of one.
pub fn commit_query(s: &str) -> (r: Result<CommitQuery, PrefixError>)
    ensures
        s@.len() == 40 && all_hex(s@) ==> r is Ok && r->Ok_0 is Id && Some(r->Ok_0->Id_0)
            == oid_parsed(s@),
        !(s@.len() == 40 && all_hex(s@)) ==> match checked_prefix(
            s@,
            lowercase(s@),
            "commit SHA"@,
        ) {
            Ok(p) => r is Ok && r->Ok_0 is Prefix && r->Ok_0->Prefix_0@ == p,
            Err(m) => r is Err && r->Err_0.message() == m,
        },
{
    if is_all_hex(s) && s.unicode_len() == 40 {
        // It looks like a full id already.
        proof {
            assert forall|i: int| 0 <= i < s@.len() implies '\0' <= #[trigger] s@[i] <= '\u{7f}' by {
                assert(is_hex_digit(s@[i]));
            }
        }
        if let Some(id) = Oid::parse(s) {
            return Ok(CommitQuery::Id(id));
        }
    }
    match validate_hex_prefix(s, "commit SHA") {
        Ok(prefix) => Ok(CommitQuery::Prefix(prefix)),
        Err(e) => Err(e),
    }
}

/// Get a short form of an object ID: the first seven digits of its text.
pub fn short_id(id: &ObjectId) -> (s: String)
    ensures
        s@ == hex_text(id.bytes@).take(7),
{
    let text = id.to_string();
    copy_str(text.as_str().substring_char(0, 7))
}

} // verus!
