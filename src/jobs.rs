use vstd::prelude::*;

use crate::command::Resolution;
use crate::decision::{DecisionProcessActionMetadata, DECISION_PROCESS_JOB_NAME};

verus! {

/// What the dispatcher is to do for a due job.
#[derive(Debug, Clone)]
pub enum JobAction {
    /// Nothing: the job is of a kind that this dispatcher does not know.
    Nothing,
    /// Fetch the issue at `issue_url` and merge it.
    Merge { issue_url: String },
    /// Fetch the issue at `issue_url` and close it.
    Close { issue_url: String },
}

#[derive(Debug, Clone, Copy, PartialEq, Eq, Structural)]
pub enum JobError {
    /// A finalize job whose metadata could not be read.
    UndecodableMetadata,
}

/// The terminal action of a finalize job: merge on `Merge`, close on `Hold`.
pub fn decision_process_handler(metadata: DecisionProcessActionMetadata) -> (r: JobAction)
    ensures
        metadata.status == Resolution::Merge ==> (r matches JobAction::Merge { issue_url }
            && issue_url@ == metadata.issue_url@),
        metadata.status == Resolution::Hold ==> (r matches JobAction::Close { issue_url }
            && issue_url@ == metadata.issue_url@),
{
    match metadata.status {
        Resolution::Merge => JobAction::Merge { issue_url: metadata.issue_url },
        Resolution::Hold => JobAction::Close { issue_url: metadata.issue_url },
    }
}

/// Routes a due job by its name. `metadata` is the job's metadata as read by the
/// caller, or `None` when it could not be read as a finalize job's. A job of an unknown
/// kind is done with nothing to do; a finalize job whose metadata could not be read is
/// an error.
pub fn handle_job(name: &String, metadata: Option<DecisionProcessActionMetadata>) -> (r: Result<
    JobAction,
    JobError,
>)
    ensures
        name@ != DECISION_PROCESS_JOB_NAME@ ==> r matches Ok(JobAction::Nothing),
        name@ == DECISION_PROCESS_JOB_NAME@ ==> match metadata {
            None => r == Err::<JobAction, JobError>(JobError::UndecodableMetadata),
            Some(m) => match r {
                Ok(JobAction::Merge { issue_url }) => m.status == Resolution::Merge
                    && issue_url@ == m.issue_url@,
                Ok(JobAction::Close { issue_url }) => m.status == Resolution::Hold
                    && issue_url@ == m.issue_url@,
                _ => false,
            },
        },
{
    let job_name = DECISION_PROCESS_JOB_NAME.to_owned();
    if *name == job_name {
        match metadata {
            Some(m) => Ok(decision_process_handler(m)),
            None => Err(JobError::UndecodableMetadata),
        }
    } else {
        Ok(JobAction::Nothing)
    }
}

} // verus!
