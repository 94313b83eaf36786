//! Jobs, their lifecycle, and the interface of a job repository.

use vstd::prelude::*;

pub mod consistency;
pub mod history;
pub mod job_repository;
pub mod laws;
pub mod state;

use state::RepositoryState;

verus! {

/// What kind of work a job stands for. It is carried along unchanged and has
/// no influence on the order in which jobs are handed out.
#[derive(Debug, Clone, Copy, PartialEq, Eq, Structural)]
pub enum JobType {
    TimeCritical,
    NotTimeCritical,
}

/// Where a job is in its lifecycle.
#[derive(Debug, Clone, Copy, PartialEq, Eq, Structural)]
pub enum JobStatus {
    Queued,
    InProgress,
    Concluded,
    Cancelled,
}

/// A unit of work tracked by a repository.
#[derive(Debug, Clone, Copy, PartialEq, Eq, Structural)]
pub struct Job {
    pub id: usize,
    pub job_type: JobType,
    pub status: JobStatus,
}

/// Why a repository operation was refused.
#[derive(Debug, Clone, Copy, PartialEq, Eq, Structural)]
pub enum JobRepositoryError {
    /// No job with this identifier exists.
    NotFound(usize),
    /// No job is waiting to be handed out.
    Empty,
    /// The job with this identifier is in a status that the requested
    /// transition cannot leave.
    InvalidStatus(usize),
    /// The pending queue and the index disagree about a job.
    Unknown,
}

impl Job {
    /// The same job in another status.
    pub open spec fn with_status(self, status: JobStatus) -> Job {
        Job { id: self.id, job_type: self.job_type, status }
    }

    /// Copies the job into the given status. Identifier and type stay as they are.
    pub fn transition(&self, status: JobStatus) -> (job: Job)
        ensures
            job == self.with_status(status),
    {
        Job { id: self.id, job_type: self.job_type, status }
    }
}

/// A store of jobs that assigns identifiers, hands queued jobs out and
/// enforces the lifecycle. Its view is the [`RepositoryState`] it holds; each
/// operation is specified as the transition of the same name on that state.
pub trait JobRepository: View<V = RepositoryState> {
    /// Adds a job to the queue. The job gets the next free identifier and
    /// starts out queued.
    fn enqueue(&mut self, job_type: JobType) -> (result: Result<Job, JobRepositoryError>)
        requires
            old(self)@.total() < usize::MAX,
        ensures
            result == Ok::<Job, JobRepositoryError>(old(self)@.enqueued_job(job_type)),
            final(self)@ == old(self)@.enqueue(job_type),
            old(self)@.wf() ==> final(self)@.wf() && final(self)@.total() == old(self)@.total()
                + 1,
    ;

    /// Hands out the most recently enqueued job that is still pending and
    /// marks it as in progress. A consistent repository never answers
    /// `Unknown`.
    fn dequeue(&mut self) -> (result: Result<Job, JobRepositoryError>)
        ensures
            result == old(self)@.dequeue_result(),
            final(self)@ == old(self)@.dequeue(),
            old(self)@.wf() ==> final(self)@.wf() && result != Err::<Job, JobRepositoryError>(
                JobRepositoryError::Unknown,
            ),
    ;

    /// Marks the job that is in progress under `id` as concluded.
    fn conclude(&mut self, id: usize) -> (result: Result<Job, JobRepositoryError>)
        ensures
            result == old(self)@.conclude_result(id),
            final(self)@ == old(self)@.conclude(id),
            old(self)@.wf() ==> final(self)@.wf(),
    ;

    /// Returns a copy of the record that is filed under `id`.
    fn find(&self, id: usize) -> (result: Result<Job, JobRepositoryError>)
        ensures
            result == self@.find(id),
    ;

    /// Cancels the job under `id`, whether it is still queued or already in
    /// progress, and takes it out of the pending queue.
    fn cancel(&mut self, id: usize) -> (result: Result<Job, JobRepositoryError>)
        ensures
            result == old(self)@.cancel_result(id),
            final(self)@ == old(self)@.cancel(id),
            old(self)@.wf() ==> final(self)@.wf(),
    ;
}

} // verus!
