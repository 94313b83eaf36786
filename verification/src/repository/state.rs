//! The mathematical model of a job repository: an index of job records and a
//! queue of the identifiers that wait to be handed out, with one transition
//! per operation.
//!
//! Every transition is a total function on states. The states that a
//! repository can actually reach satisfy [`RepositoryState::wf`]; the
//! module `consistency` proves that, and the module `laws` what follows
//! from it.

use super::{Job, JobRepositoryError, JobStatus, JobType};
use vstd::prelude::*;

verus! {

/// What a repository holds at one moment.
pub struct RepositoryState {
    /// The index: the authoritative record of every job, by identifier.
    pub jobs: Map<usize, Job>,
    /// The pending queue. The most recently enqueued identifier is last.
    pub pending: Seq<usize>,
}

/// Whether `jobs` holds a job under `id` that is in `status`.
pub open spec fn in_status(jobs: Map<usize, Job>, id: usize, status: JobStatus) -> bool {
    jobs.contains_key(id) && jobs[id].status == status
}

impl RepositoryState {
    /// The state of a repository that has never been used.
    pub open spec fn empty() -> Self {
        RepositoryState { jobs: Map::empty(), pending: Seq::empty() }
    }

    /// The number of jobs in the index.
    pub open spec fn total(self) -> nat {
        self.jobs.len()
    }

    /// The index holds a job under `id`, and that job is in `status`.
    pub open spec fn has_status(self, id: usize, status: JobStatus) -> bool {
        in_status(self.jobs, id, status)
    }

    /// The identifiers of the jobs that are in `status`.
    pub open spec fn ids_with(self, status: JobStatus) -> Set<usize> {
        self.jobs.dom().filter(|id: usize| self.jobs[id].status == status)
    }

    /// The number of jobs that are in `status`.
    pub open spec fn count(self, status: JobStatus) -> nat {
        self.ids_with(status).len()
    }

    /// The consistency that every reachable state has:
    /// the identifiers in use are exactly `1..=total()`, each record is filed
    /// under its own identifier, and the pending queue lists exactly the
    /// queued jobs, oldest first.
    pub open spec fn wf(self) -> bool {
        &&& self.jobs.dom().finite()
        &&& forall|id: usize| #[trigger]
            self.jobs.contains_key(id) <==> 1 <= id <= self.total()
        &&& forall|id: usize| #[trigger]
            self.jobs.contains_key(id) ==> self.jobs[id].id == id
        &&& forall|i: int, j: int|
            0 <= i < j < self.pending.len() ==> #[trigger] self.pending[i]
                < #[trigger] self.pending[j]
        &&& forall|id: usize| #[trigger]
            self.pending.contains(id) <==> self.has_status(id, JobStatus::Queued)
    }

    /// The identifier that the next enqueued job receives.
    pub open spec fn next_id(self) -> usize {
        (self.total() + 1) as usize
    }

    /// The record that `enqueue` creates.
    pub open spec fn enqueued_job(self, job_type: JobType) -> Job {
        Job { id: self.next_id(), job_type, status: JobStatus::Queued }
    }

    /// The state after `enqueue`: the new record is in the index and its
    /// identifier is at the tail of the pending queue.
    pub open spec fn enqueue(self, job_type: JobType) -> Self {
        let job = self.enqueued_job(job_type);
        RepositoryState {
            jobs: self.jobs.insert(job.id, job),
            pending: self.pending.push(job.id),
        }
    }

    /// What `dequeue` returns: the job at the tail of the pending queue, now
    /// in progress; `Empty` when nothing is pending; `Unknown` when the index
    /// does not hold the tail entry as a queued job.
    pub open spec fn dequeue_result(self) -> Result<Job, JobRepositoryError> {
        if self.pending.len() == 0 {
            Err(JobRepositoryError::Empty)
        } else if self.has_status(self.pending.last(), JobStatus::Queued) {
            Ok(self.jobs[self.pending.last()].with_status(JobStatus::InProgress))
        } else {
            Err(JobRepositoryError::Unknown)
        }
    }

    /// The state after `dequeue`. A refused call changes nothing.
    pub open spec fn dequeue(self) -> Self {
        match self.dequeue_result() {
            Ok(job) => RepositoryState {
                jobs: self.jobs.insert(self.pending.last(), job),
                pending: self.pending.drop_last(),
            },
            Err(_) => self,
        }
    }

    /// What `conclude` returns: the job, now concluded, if it was in
    /// progress; `NotFound` for an identifier that the index does not hold;
    /// `InvalidStatus` for a job in any other status.
    pub open spec fn conclude_result(self, id: usize) -> Result<Job, JobRepositoryError> {
        if !self.jobs.contains_key(id) {
            Err(JobRepositoryError::NotFound(id))
        } else if self.jobs[id].status == JobStatus::InProgress {
            Ok(self.jobs[id].with_status(JobStatus::Concluded))
        } else {
            Err(JobRepositoryError::InvalidStatus(id))
        }
    }

    /// The state after `conclude`. A refused call changes nothing.
    pub open spec fn conclude(self, id: usize) -> Self {
        match self.conclude_result(id) {
            Ok(job) => RepositoryState { jobs: self.jobs.insert(id, job), pending: self.pending },
            Err(_) => self,
        }
    }

    /// An entry of the pending queue is stale when it is `id` itself or when
    /// the index already holds it as cancelled.
    pub open spec fn stale(self, id: usize, entry: usize) -> bool {
        entry == id || self.has_status(entry, JobStatus::Cancelled)
    }

    /// The pending queue without the entries that are stale with respect to `id`.
    pub open spec fn purged(self, id: usize) -> Seq<usize> {
        self.pending.filter(|entry: usize| !self.stale(id, entry))
    }

    /// What `cancel` returns: the job, now cancelled, if it was queued or in
    /// progress; `NotFound` for an identifier that the index does not hold;
    /// `InvalidStatus` for a job that is already concluded or cancelled.
    pub open spec fn cancel_result(self, id: usize) -> Result<Job, JobRepositoryError> {
        if !self.jobs.contains_key(id) {
            Err(JobRepositoryError::NotFound(id))
        } else if self.jobs[id].status == JobStatus::Queued || self.jobs[id].status
            == JobStatus::InProgress {
            Ok(self.jobs[id].with_status(JobStatus::Cancelled))
        } else {
            Err(JobRepositoryError::InvalidStatus(id))
        }
    }

    /// The state after `cancel`: the record is cancelled and the pending
    /// queue has lost the job together with every entry that was already
    /// cancelled. A refused call changes nothing.
    pub open spec fn cancel(self, id: usize) -> Self {
        match self.cancel_result(id) {
            Ok(job) => RepositoryState { jobs: self.jobs.insert(id, job), pending: self.purged(id) },
            Err(_) => self,
        }
    }

    /// What `find` returns: the record as the index holds it.
    pub open spec fn find(self, id: usize) -> Result<Job, JobRepositoryError> {
        if self.jobs.contains_key(id) {
            Ok(self.jobs[id])
        } else {
            Err(JobRepositoryError::NotFound(id))
        }
    }
}

} // verus!
