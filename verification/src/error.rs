//! Errors of updating or creating plans.

use vstd::prelude::*;
use crate::actions::Action;
use crate::common::TitleError;
use crate::ids::{ActorId, EntryId};
use crate::thread::ThreadError;

verus! {

/// Error updating or creating plans.
#[derive(Debug, Clone, PartialEq, Eq)]
pub enum Error {
    /// Thread apply failed.
    Thread(ThreadError),
    /// Invalid plan title.
    TitleError(TitleError),
    /// Action not authorized.
    NotAuthorized(ActorId, Action),
    /// Action not allowed: the entry has had its turn. An entry changes the
    /// discussion thread once and makes one task.
    NotAllowed(EntryId),
    /// The identity doc is missing.
    MissingIdentity,
    /// General error initializing a plan.
    Init(&'static str),
}

} // verus!
