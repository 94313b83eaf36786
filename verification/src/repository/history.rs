//! Sequences of operations, to speak of everything that can happen to a
//! repository between its creation and a given moment.

use super::state::RepositoryState;
use super::{Job, JobRepositoryError, JobStatus, JobType};
use vstd::prelude::*;

verus! {

/// One call of an operation that may change a repository.
pub enum Operation {
    Enqueue(JobType),
    Dequeue,
    Conclude(usize),
    Cancel(usize),
}

impl RepositoryState {
    /// The state after `operation`.
    pub open spec fn apply(self, operation: Operation) -> Self {
        match operation {
            Operation::Enqueue(job_type) => self.enqueue(job_type),
            Operation::Dequeue => self.dequeue(),
            Operation::Conclude(id) => self.conclude(id),
            Operation::Cancel(id) => self.cancel(id),
        }
    }

    /// What `operation` returns.
    pub open spec fn outcome(self, operation: Operation) -> Result<Job, JobRepositoryError> {
        match operation {
            Operation::Enqueue(job_type) => Ok(self.enqueued_job(job_type)),
            Operation::Dequeue => self.dequeue_result(),
            Operation::Conclude(id) => self.conclude_result(id),
            Operation::Cancel(id) => self.cancel_result(id),
        }
    }

    /// The state after `operations`, carried out one after the other.
    pub open spec fn run(self, operations: Seq<Operation>) -> Self
        decreases operations.len(),
    {
        if operations.len() == 0 {
            self
        } else {
            self.run(operations.drop_last()).apply(operations.last())
        }
    }
}

/// Whether `operation` may take the job `id` from the status `before` to the
/// status `after`: a dequeue starts a queued job, a conclude ends one that is
/// in progress, a cancel ends one that is queued or in progress. Nothing
/// else moves a job.
pub open spec fn moves(operation: Operation, id: usize, before: JobStatus, after: JobStatus) -> bool {
    match operation {
        Operation::Enqueue(_) => false,
        Operation::Dequeue => before == JobStatus::Queued && after == JobStatus::InProgress,
        Operation::Conclude(target) => target == id && before == JobStatus::InProgress && after
            == JobStatus::Concluded,
        Operation::Cancel(target) => target == id && (before == JobStatus::Queued || before
            == JobStatus::InProgress) && after == JobStatus::Cancelled,
    }
}

/// How many of `operations` enqueue a job.
pub open spec fn enqueues(operations: Seq<Operation>) -> nat {
    operations.filter(|operation: Operation| operation is Enqueue).len()
}

} // verus!
