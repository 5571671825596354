//! Identifiers: object ids and public keys, held as their raw bytes.
//!
//! Ids are compared and ordered by their bytes, first byte first.

use vstd::prelude::*;
use std::str::FromStr;
use crate::prefix::{all_hex, is_hex_digit};

verus! {

/// The sixteen digits that ids are written with.
pub open spec fn hex_digits() -> Seq<char> {
    seq!['0', '1', '2', '3', '4', '5', '6', '7', '8', '9', 'a', 'b', 'c', 'd', 'e', 'f']
}

/// Bytes as text: for each byte its two hexadecimal digits, the higher
/// first, in lower case.
pub open spec fn hex_text(bytes: Seq<u8>) -> Seq<char> {
    Seq::new(
        2 * bytes.len(),
        |i: int|
            if i % 2 == 0 {
                hex_digits()[bytes[i / 2] as int / 16]
            } else {
                hex_digits()[bytes[i / 2] as int % 16]
            },
    )
}

/// The id that a text of ASCII characters stands for, if it stands for one.
pub uninterp spec fn oid_parsed(text: Seq<char>) -> Option<Oid>;

/// A public key as text, in the form that is meant to be read.
pub uninterp spec fn key_text(key: Seq<u8>) -> Seq<char>;

/// `Did::encode`: the identifier as text, which is `did:key:` and then the
/// key in the form that is meant to be read. That form depends on the
/// key's bytes alone.
#[verifier::external_body]
fn did_text(did: &Did) -> (s: String)
    ensures
        s@ == "did:key:"@ + key_text(did.key.bytes@),
{
    radicle::prelude::Did::from(radicle::crypto::PublicKey::from_bytes(did.key.bytes)).encode()
}

/// The `Display` of radicle's `Oid`: the digest in hexadecimal, two digits
/// a byte, in lower case.
#[verifier::external_body]
fn oid_text(id: &Oid) -> (s: String)
    ensures
        s@ == hex_text(id.bytes@),
{
    radicle::git::Oid::from_sha1(id.bytes).to_string()
}

/// The `FromStr` of radicle's `Oid`: what comes back depends on the text
/// alone. A text that is not forty characters long is no id, and one of
/// forty hexadecimal digits is an id. The text must be ASCII.
#[verifier::external_body]
fn oid_from_text(text: &str) -> (r: Option<Oid>)
    requires
        vstd::string::is_ascii(text),
    ensures
        r == oid_parsed(text@),
        text@.len() != 40 ==> r is None,
        text@.len() == 40 && all_hex(text@) ==> r is Some,
{
    radicle::git::Oid::from_str(text).ok().map(|id| Oid { bytes: id.into_sha1().unwrap_or_default() })
}

/// Whether `a` comes strictly before `b` in the lexicographic order of bytes.
pub open spec fn bytes_lt(a: Seq<u8>, b: Seq<u8>) -> bool
    decreases a.len(),
{
    if b.len() == 0 {
        false
    } else if a.len() == 0 {
        true
    } else if a[0] != b[0] {
        a[0] < b[0]
    } else {
        bytes_lt(a.drop_first(), b.drop_first())
    }
}

/// The order of bytes is irreflexive.
pub proof fn lemma_bytes_lt_irreflexive(a: Seq<u8>)
    ensures
        !bytes_lt(a, a),
    decreases a.len(),
{
    if a.len() > 0 {
        lemma_bytes_lt_irreflexive(a.drop_first());
    }
}

/// The order of bytes is transitive.
pub proof fn lemma_bytes_lt_transitive(a: Seq<u8>, b: Seq<u8>, c: Seq<u8>)
    requires
        bytes_lt(a, b),
        bytes_lt(b, c),
    ensures
        bytes_lt(a, c),
    decreases a.len(),
{
    if a.len() > 0 && a[0] == b[0] && b[0] == c[0] {
        lemma_bytes_lt_transitive(a.drop_first(), b.drop_first(), c.drop_first());
    }
}

/// The order of bytes is total: two different byte strings are ordered one way.
pub proof fn lemma_bytes_lt_total(a: Seq<u8>, b: Seq<u8>)
    ensures
        bytes_lt(a, b) || bytes_lt(b, a) || a == b,
    decreases a.len(),
{
    if a.len() > 0 && b.len() > 0 && a[0] == b[0] {
        lemma_bytes_lt_total(a.drop_first(), b.drop_first());
        if a.drop_first() == b.drop_first() {
            assert(a =~= seq![a[0]] + a.drop_first());
            assert(b =~= seq![b[0]] + b.drop_first());
        }
    } else if a.len() == 0 && b.len() == 0 {
        assert(a =~= b);
    }
}

/// After a common prefix of `i` bytes, the order is that of what follows.
proof fn lemma_bytes_lt_skip(a: Seq<u8>, b: Seq<u8>, i: int)
    requires
        0 <= i <= a.len(),
        i <= b.len(),
        forall|j: int| 0 <= j < i ==> a[j] == b[j],
    ensures
        bytes_lt(a, b) == bytes_lt(a.skip(i), b.skip(i)),
    decreases i,
{
    if i == 0 {
        assert(a.skip(0) =~= a);
        assert(b.skip(0) =~= b);
    } else {
        lemma_bytes_lt_skip(a, b, i - 1);
        let x = a.skip(i - 1);
        let y = b.skip(i - 1);
        assert(x[0] == y[0]);
        assert(x.drop_first() =~= a.skip(i));
        assert(y.drop_first() =~= b.skip(i));
    }
}

/// Compares two byte strings for equality.
pub fn slice_eq(a: &[u8], b: &[u8]) -> (r: bool)
    ensures
        r == (a@ == b@),
{
    if a.len() != b.len() {
        return false;
    }
    let mut i: usize = 0;
    while i < a.len()
        invariant
            a@.len() == b@.len(),
            i <= a@.len(),
            forall|j: int| 0 <= j < i ==> a@[j] == b@[j],
        decreases a@.len() - i,
    {
        if a[i] != b[i] {
            return false;
        }
        i += 1;
    }
    assert(a@ =~= b@);
    true
}

/// Whether `a` comes strictly before `b`, byte by byte.
pub fn slice_lt(a: &[u8], b: &[u8]) -> (r: bool)
    ensures
        r == bytes_lt(a@, b@),
{
    let mut i: usize = 0;
    while i < a.len() && i < b.len()
        invariant
            i <= a@.len(),
            i <= b@.len(),
            forall|j: int| 0 <= j < i ==> a@[j] == b@[j],
        decreases a@.len() - i,
    {
        if a[i] != b[i] {
            proof {
                lemma_bytes_lt_skip(a@, b@, i as int);
            }
            return a[i] < b[i];
        }
        i += 1;
    }
    proof {
        lemma_bytes_lt_skip(a@, b@, i as int);
    }
    i < b.len()
}

/// A git object id: the twenty bytes of a SHA-1 digest.
#[derive(Clone, Copy, Debug, PartialEq, Eq, PartialOrd, Ord, Hash)]
pub struct Oid {
    /// The digest.
    pub bytes: [u8; 20],
}

/// Identifies the log entry that an operation lives under.
pub type EntryId = Oid;

/// Identifies a task: the id of the entry that created it.
pub type TaskId = Oid;

/// Identifies a comment: the id of the entry that created it.
pub type CommentId = Oid;

/// Identifies a collaborative object, such as an issue or a patch.
pub type ObjectId = Oid;

impl Oid {
    /// The id with the given digest.
    pub fn from_bytes(bytes: [u8; 20]) -> (id: Oid)
        ensures
            id.bytes == bytes,
    {
        Oid { bytes }
    }

    /// Whether two ids are the same.
    pub fn same(&self, other: &Oid) -> (r: bool)
        ensures
            r == (*self == *other),
    {
        let r = slice_eq(self.bytes.as_slice(), other.bytes.as_slice());
        proof {
            if r {
                assert(self.bytes =~= other.bytes);
            }
        }
        r
    }

    /// The id as text: forty hexadecimal digits in lower case.
    pub fn to_string(&self) -> (s: String)
        ensures
            s@ == hex_text(self.bytes@),
            s@.len() == 40,
    {
        oid_text(self)
    }

    /// Reads an id. A text with a character outside ASCII is no id, nor is
    /// one that is not forty characters long.
    pub fn parse(text: &str) -> (r: Option<Oid>)
        ensures
            r == if vstd::string::is_ascii(text) {
                oid_parsed(text@)
            } else {
                None
            },
            text@.len() != 40 ==> r is None,
            text@.len() == 40 && all_hex(text@) ==> r is Some,
    {
        proof {
            if all_hex(text@) {
                assert forall|i: int| 0 <= i < text@.len() implies '\0' <= #[trigger] text@[i]
                    <= '\u{7f}' by {
                    assert(is_hex_digit(text@[i]));
                }
            }
        }
        if text.is_ascii() {
            oid_from_text(text)
        } else {
            None
        }
    }
}

/// Why a text is no id: it is not forty hexadecimal digits.
#[derive(Clone, Copy, Debug, PartialEq, Eq)]
pub struct ParseOidError;

impl FromStr for Oid {
    type Err = ParseOidError;

    /// Reads an id, as [`Oid::parse`] does: the id that the text stands
    /// for, or an error where it stands for none.
    fn from_str(text: &str) -> (r: Result<Self, Self::Err>)
        ensures
            match (if vstd::string::is_ascii(text) {
                oid_parsed(text@)
            } else {
                None
            }) {
                Some(id) => r is Ok && r->Ok_0 == id,
                None => r is Err,
            },
            text@.len() != 40 ==> r is Err,
            text@.len() == 40 && all_hex(text@) ==> r is Ok,
    {
        match Oid::parse(text) {
            Some(id) => Ok(id),
            None => Err(ParseOidError),
        }
    }
}

/// An Ed25519 public key: thirty-two bytes.
#[derive(Clone, Copy, Debug, PartialEq, Eq, PartialOrd, Ord, Hash)]
pub struct PublicKey {
    /// The key.
    pub bytes: [u8; 32],
}

/// The author of an operation.
pub type ActorId = PublicKey;

impl PublicKey {
    /// The key with the given bytes.
    pub fn from_bytes(bytes: [u8; 32]) -> (key: PublicKey)
        ensures
            key.bytes == bytes,
    {
        PublicKey { bytes }
    }

    /// Whether two keys are the same.
    pub fn same(&self, other: &PublicKey) -> (r: bool)
        ensures
            r == (*self == *other),
    {
        let r = slice_eq(self.bytes.as_slice(), other.bytes.as_slice());
        proof {
            if r {
                assert(self.bytes =~= other.bytes);
            }
        }
        r
    }
}

/// A decentralized identifier of the `key` method: it stands for a public key.
#[derive(Clone, Copy, Debug, PartialEq, Eq, PartialOrd, Ord, Hash)]
pub struct Did {
    /// The key that the identifier names.
    pub key: PublicKey,
}

impl Did {
    /// The identifier of a key.
    pub fn from_key(key: PublicKey) -> (did: Did)
        ensures
            did.key == key,
    {
        Did { key }
    }

    /// The key that the identifier names.
    pub fn as_key(&self) -> (key: &PublicKey)
        ensures
            *key == self.key,
    {
        &self.key
    }

    /// The identifier as text: `did:key:`, then the key.
    pub fn to_string(&self) -> (s: String)
        ensures
            s@ == "did:key:"@ + key_text(self.key.bytes@),
    {
        did_text(self)
    }

    /// Whether two identifiers are the same.
    pub fn same(&self, other: &Did) -> (r: bool)
        ensures
            r == (*self == *other),
    {
        self.key.same(&other.key)
    }
}

/// The author of a plan.
#[derive(Clone, Copy, Debug, PartialEq, Eq, PartialOrd, Ord, Hash)]
pub struct Author {
    /// The author's identifier.
    pub id: Did,
}

impl Author {
    /// The author with the given identifier.
    pub fn new(id: Did) -> (author: Author)
        ensures
            author.id == id,
    {
        Author { id }
    }

    /// The author's identifier.
    pub fn id(&self) -> (id: &Did)
        ensures
            *id == self.id,
    {
        &self.id
    }

    /// The author's public key.
    pub fn public_key(&self) -> (key: &PublicKey)
        ensures
            *key == self.id.key,
    {
        &self.id.key
    }
}

} // verus!
