//! Short forms of ids: hexadecimal prefixes.

use vstd::prelude::*;
use vstd::string::{StrSliceExecFns, StringExecFns};
use crate::text::{copy_str, lowercase, to_lowercase};

verus! {

/// The least number of characters that a prefix of an id must have.
pub const MIN_PREFIX_LEN: usize = 7;

/// Whether `c` is one of `0`-`9`, `a`-`f`, `A`-`F`.
pub open spec fn is_hex_digit(c: char) -> bool {
    ('0' <= c && c <= '9') || ('a' <= c && c <= 'f') || ('A' <= c && c <= 'F')
}

/// Whether every character of `s` is a hexadecimal digit.
pub open spec fn all_hex(s: Seq<char>) -> bool {
    forall|i: int| 0 <= i < s.len() ==> is_hex_digit(#[trigger] s[i])
}

/// Why a string is no prefix of an id.
#[derive(Debug, Clone, PartialEq, Eq)]
pub enum PrefixError {
    /// The string holds a character that is no hexadecimal digit.
    NotHex {
        /// What the string was meant to name.
        label: String,
        /// The string as it was given.
        input: String,
    },
    /// The string has fewer than [`MIN_PREFIX_LEN`] characters.
    TooShort {
        /// What the string was meant to name.
        label: String,
        /// The string as it was given.
        input: String,
    },
}

impl PrefixError {
    /// The text of the error's message.
    pub open spec fn message(&self) -> Seq<char> {
        match self {
            PrefixError::NotHex { label, input } => "Invalid "@ + label@ + " '"@ + input@
                + "': not a valid hex string"@,
            PrefixError::TooShort { label, input } => label@ + " prefix '"@ + input@
                + "' too short: need at least 7 characters"@,
        }
    }

    /// The error's message.
    pub fn to_string(&self) -> (s: String)
        ensures
            s@ == self.message(),
    {
        match self {
            PrefixError::NotHex { label, input } => {
                let mut s = String::from_str("Invalid ");
                s.append(label.as_str());
                s.append(" '");
                s.append(input.as_str());
                s.append("': not a valid hex string");
                s
            },
            PrefixError::TooShort { label, input } => {
                let mut s = String::from_str(label.as_str());
                s.append(" prefix '");
                s.append(input.as_str());
                s.append("' too short: need at least 7 characters");
                s
            },
        }
    }
}

/// Whether every character of `s` is a hexadecimal digit.
pub fn is_all_hex(s: &str) -> (r: bool)
    ensures
        r == all_hex(s@),
{
    let n = s.unicode_len();
    let mut i: usize = 0;
    while i < n
        invariant
            n == s@.len(),
            i <= n,
            forall|j: int| 0 <= j < i ==> is_hex_digit(#[trigger] s@[j]),
        decreases n - i,
    {
        let c = s.get_char(i);
        if !(('0' <= c && c <= '9') || ('a' <= c && c <= 'f') || ('A' <= c && c <= 'F')) {
            return false;
        }
        i += 1;
    }
    true
}

/// What [`validate_hex_prefix`] gives for `input` once it has been lowered to
/// `lowered`.
pub open spec fn checked_prefix(input: Seq<char>, lowered: Seq<char>, label: Seq<char>) -> Result<
    Seq<char>,
    Seq<char>,
> {
    if !all_hex(lowered) {
        Err("Invalid "@ + label + " '"@ + input + "': not a valid hex string"@)
    } else if lowered.len() < MIN_PREFIX_LEN {
        Err(label + " prefix '"@ + input + "' too short: need at least 7 characters"@)
    } else {
        Ok(lowered)
    }
}

/// Checks the lower-case form `lowered` of `input`: it must hold hexadecimal
/// digits only, and at least [`MIN_PREFIX_LEN`] of them. The first rule is
/// tested first.
pub fn check_hex_prefix(input: &str, lowered: String, label: &str) -> (r: Result<
    String,
    PrefixError,
>)
    ensures
        match checked_prefix(input@, lowered@, label@) {
            Ok(p) => r is Ok && r->Ok_0@ == p,
            Err(m) => r is Err && r->Err_0.message() == m,
        },
        !all_hex(lowered@) ==> r is Err && r->Err_0 is NotHex,
        all_hex(lowered@) && lowered@.len() < MIN_PREFIX_LEN ==> r is Err && r->Err_0 is TooShort,
{
    if !is_all_hex(lowered.as_str()) {
        return Err(PrefixError::NotHex { label: copy_str(label), input: copy_str(input) });
    }
    if lowered.as_str().unicode_len() < MIN_PREFIX_LEN {
        return Err(PrefixError::TooShort { label: copy_str(label), input: copy_str(input) });
    }
    Ok(lowered)
}

/// Validate that a string is a valid hex prefix of at least
/// [`MIN_PREFIX_LEN`] characters, and give it in lower case. `label` says in
/// the error what the string was meant to name.
pub fn validate_hex_prefix(s: &str, label: &str) -> (r: Result<String, PrefixError>)
    ensures
        match checked_prefix(s@, lowercase(s@), label@) {
            Ok(p) => r is Ok && r->Ok_0@ == p,
            Err(m) => r is Err && r->Err_0.message() == m,
        },
{
    let lowered = to_lowercase(s);
    check_hex_prefix(s, lowered, label)
}

} // verus!
