//! # radicle-plan-cob
//!
//! Implementation plans as replicated objects: the actions that change a
//! plan, who may apply them, and how an ordered log of them is folded into
//! the state of the plan.
//!
//! Plans link to issues and patches, so that the progress of development
//! work can be tracked.

use vstd::prelude::*;

pub mod actions;
pub mod apply;
pub mod authorize;
pub mod common;
pub mod counts;
pub mod error;
pub mod export;
pub mod identity;
pub mod ids;
pub mod keyset;
pub mod op;
pub mod plan;
pub mod prefix;
pub mod resolve;
pub mod status;
pub mod task;
pub mod text;
pub mod thread;

pub use actions::Action;
pub use counts::PlanCounts;
pub use error::Error;
pub use ids::{ObjectId, TaskId};
pub use op::Op;
pub use plan::Plan;
pub use status::PlanStatus;
pub use task::Task;

verus! {

/// Type name of a plan, in reverse domain notation.
pub const TYPENAME: &'static str = "me.hdh.plan";

/// Identifier for a plan.
pub type PlanId = ObjectId;

} // verus!
