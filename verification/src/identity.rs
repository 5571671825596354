//! The identity document, as far as plans read it: its delegates.

use vstd::prelude::*;
use crate::ids::Did;

verus! {

/// An identity document: it says who the delegates are.
#[derive(Debug, Clone, PartialEq, Eq)]
pub struct Doc {
    /// The delegates.
    pub delegates: Vec<Did>,
}

impl Doc {
    /// The document with the given delegates.
    pub fn new(delegates: Vec<Did>) -> (doc: Doc)
        ensures
            doc.delegates@ == delegates@,
    {
        Doc { delegates }
    }

    /// Check if the `did` is one of the delegates.
    pub fn is_delegate(&self, did: &Did) -> (b: bool)
        ensures
            b == self.delegates@.contains(*did),
    {
        let mut i: usize = 0;
        while i < self.delegates.len()
            invariant
                i <= self.delegates@.len(),
                forall|j: int| 0 <= j < i ==> self.delegates@[j] != *did,
            decreases self.delegates@.len() - i,
        {
            if self.delegates[i].same(did) {
                assert(self.delegates@[i as int] == *did);
                return true;
            }
            i += 1;
        }
        false
    }
}

} // verus!
