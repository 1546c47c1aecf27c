//! The archive job that the task routes queue.
use vstd::prelude::*;

verus! {

/// A background job: archive what `task` names.
#[derive(Debug)]
pub struct ArchiveJob {
    pub task: String,
}

impl ArchiveJob {
    /// The job for `task`.
    pub fn new(task: &str) -> (job: Self)
        ensures
            job.task@ == task@,
    {
        ArchiveJob { task: task.to_owned() }
    }
}

} // verus!
