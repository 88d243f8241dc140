//! A decision process for issues: team members vote `merge` or `hold` in comments, each
//! member's current vote and history are tracked, and a job scheduled at the end of a
//! ten-day window applies the decision.

use vstd::prelude::*;

pub mod command;
pub mod decision;
pub mod jobs;
pub mod store;
pub mod token;
pub mod votes;

verus! {

} // verus!
