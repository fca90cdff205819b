//! Verified core of a desktop tool that tracks Git work items.
use vstd::prelude::*;

pub mod agents;
pub mod external;
pub mod git;
pub mod github;
pub mod notification_laws;
pub mod notifications;
pub mod open;
pub mod paths;
pub mod run;
pub mod ship;
pub mod text;

verus! {
} // verus!
