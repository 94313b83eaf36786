//! A job repository that keeps everything in memory.

use super::consistency::{
    cancel_preserves_wf, conclude_preserves_wf, dequeue_preserves_wf, enqueue_preserves_wf,
};
use super::state::{in_status, RepositoryState};
use super::{Job, JobRepository, JobRepositoryError, JobStatus, JobType};
use std::collections::{HashMap, VecDeque};
use vstd::prelude::*;
use vstd::std_specs::hash::spec_hash_map_iter;
use vstd::std_specs::iter::IteratorSpec;

verus! {

broadcast use vstd::std_specs::hash::group_hash_axioms;

/// The index and the pending queue, side by side. Whoever holds the
/// repository mutably holds both, so no operation is ever observed halfway.
pub struct InMemoryJobRepository {
    jobs: HashMap<usize, Job>,
    queue: VecDeque<usize>,
}

impl View for InMemoryJobRepository {
    type V = RepositoryState;

    closed spec fn view(&self) -> RepositoryState {
        RepositoryState { jobs: self.jobs@, pending: self.queue@ }
    }
}

/// Whether `jobs` holds `id` as a cancelled job.
fn is_cancelled(jobs: &HashMap<usize, Job>, id: usize) -> (cancelled: bool)
    ensures
        cancelled == in_status(jobs@, id, JobStatus::Cancelled),
{
    match jobs.get(&id) {
        Some(job) => job.status == JobStatus::Cancelled,
        None => false,
    }
}

/// Drops from `queue` every entry that is `id` itself or that `jobs` already
/// holds as cancelled. The entries that stay keep their order.
fn purge(queue: &mut VecDeque<usize>, jobs: &HashMap<usize, Job>, id: usize)
    ensures
        final(queue)@ == (RepositoryState { jobs: jobs@, pending: old(queue)@ }).purged(id),
{
    let ghost before = queue@;
    let ghost state = RepositoryState { jobs: jobs@, pending: before };
    let ghost keep = |entry: usize| !state.stale(id, entry);
    let ghost seen: int = 0;
    let mut i: usize = 0;
    proof {
        assert(before.take(0).filter(keep) =~= Seq::<usize>::empty());
        assert(before.skip(0) =~= before);
    }
    while i < queue.len()
        invariant
            0 <= seen <= before.len(),
            i == before.take(seen).filter(keep).len(),
            queue@ == before.take(seen).filter(keep) + before.skip(seen),
            state == (RepositoryState { jobs: jobs@, pending: before }),
            keep == |entry: usize| !state.stale(id, entry),
        decreases queue.len() - i,
    {
        let entry = queue[i];
        proof {
            assert(before.take(seen + 1) =~= before.take(seen) + seq![entry]);
            Seq::filter_distributes_over_add(before.take(seen), seq![entry], keep);
            reveal_with_fuel(Seq::filter, 2);
            assert(seq![entry].drop_last() =~= Seq::<usize>::empty());
        }
        if entry == id || is_cancelled(jobs, entry) {
            queue.remove(i);
            proof {
                assert(queue@ =~= before.take(seen + 1).filter(keep) + before.skip(seen + 1));
            }
        } else {
            i += 1;
            proof {
                assert(queue@ =~= before.take(seen + 1).filter(keep) + before.skip(seen + 1));
            }
        }
        proof {
            seen = seen + 1;
        }
    }
    assert(before.take(seen) =~= before);
}

/// How many of the first `upto` records are in `status`.
spec fn tally(records: Seq<(&usize, &Job)>, upto: int, status: JobStatus) -> nat
    decreases upto,
{
    if upto <= 0 {
        0
    } else if records[upto - 1].1.status == status {
        tally(records, upto - 1, status) + 1
    } else {
        tally(records, upto - 1, status)
    }
}

/// The identifiers of the first `upto` records.
spec fn seen(records: Seq<(&usize, &Job)>, upto: int) -> Set<usize> {
    Set::new(|id: usize| exists|i: int| 0 <= i < upto && *(#[trigger] records[i]).0 == id)
}

/// Walking over the entries of an index, each of them once, and counting
/// those in `status` counts the identifiers that the index holds in that status.
proof fn tally_counts_ids(
    jobs: Map<usize, Job>,
    records: Seq<(&usize, &Job)>,
    upto: int,
    status: JobStatus,
)
    requires
        0 <= upto <= records.len(),
        records.no_duplicates(),
        forall|i: int|
            0 <= i < records.len() ==> jobs.contains_key(*(#[trigger] records[i]).0)
                && jobs[*records[i].0] == *records[i].1,
    ensures
        seen(records, upto).finite(),
        tally(records, upto, status) == seen(records, upto).filter(
            |id: usize| jobs[id].status == status,
        ).len(),
    decreases upto,
{
    let in_status = |id: usize| jobs[id].status == status;
    if upto == 0 {
        assert(seen(records, upto) =~= Set::<usize>::empty());
        assert(seen(records, upto).filter(in_status) =~= Set::<usize>::empty());
    } else {
        tally_counts_ids(jobs, records, upto - 1, status);
        let id = *records[upto - 1].0;
        let earlier = seen(records, upto - 1);
        assert(!earlier.contains(id)) by {
            if earlier.contains(id) {
                let i = choose|i: int| 0 <= i < upto - 1 && *(#[trigger] records[i]).0 == id;
                assert(records[i] == records[upto - 1]);
            }
        }
        assert(seen(records, upto) =~= earlier.insert(id));
        if in_status(id) {
            assert(seen(records, upto).filter(in_status) =~= earlier.filter(in_status).insert(id));
        } else {
            assert(seen(records, upto).filter(in_status) =~= earlier.filter(in_status));
        }
        earlier.lemma_len_filter(in_status);
    }
}

impl InMemoryJobRepository {
    /// How many jobs are queued, in progress, concluded and cancelled, in
    /// that order. Every job of the index is counted exactly once.
    pub fn stats(&self) -> (counts: (usize, usize, usize, usize))
        ensures
            counts.0 == self@.count(JobStatus::Queued),
            counts.1 == self@.count(JobStatus::InProgress),
            counts.2 == self@.count(JobStatus::Concluded),
            counts.3 == self@.count(JobStatus::Cancelled),
            counts.0 + counts.1 + counts.2 + counts.3 == self@.total(),
    {
        let mut queued: usize = 0;
        let mut in_progress: usize = 0;
        let mut concluded: usize = 0;
        let mut cancelled: usize = 0;
        assert(self.jobs@.len() == self.jobs.len());
        for record in records: self.jobs.iter()
            invariant
                records.seq() == spec_hash_map_iter(&self.jobs).remaining(),
                records.seq().no_duplicates(),
                records.seq().len() <= usize::MAX,
                queued == tally(records.seq(), records.index(), JobStatus::Queued),
                in_progress == tally(records.seq(), records.index(), JobStatus::InProgress),
                concluded == tally(records.seq(), records.index(), JobStatus::Concluded),
                cancelled == tally(records.seq(), records.index(), JobStatus::Cancelled),
                queued + in_progress + concluded + cancelled == records.index(),
        {
            match record.1.status {
                JobStatus::Queued => queued += 1,
                JobStatus::InProgress => in_progress += 1,
                JobStatus::Concluded => concluded += 1,
                JobStatus::Cancelled => cancelled += 1,
            }
        }
        proof {
            let all = spec_hash_map_iter(&self.jobs).remaining();
            let jobs = self.jobs@;
            tally_counts_ids(jobs, all, all.len() as int, JobStatus::Queued);
            tally_counts_ids(jobs, all, all.len() as int, JobStatus::InProgress);
            tally_counts_ids(jobs, all, all.len() as int, JobStatus::Concluded);
            tally_counts_ids(jobs, all, all.len() as int, JobStatus::Cancelled);
            assert(seen(all, all.len() as int) =~= jobs.dom()) by {
                assert forall|id: usize| jobs.contains_key(id) implies seen(
                    all,
                    all.len() as int,
                ).contains(id) by {
                    assert(all.contains((&id, &jobs[id])));
                    let i = choose|i: int| 0 <= i < all.len() && all[i] == (&id, &jobs[id]);
                    assert(*all[i].0 == id);
                }
            }
        }
        (queued, in_progress, concluded, cancelled)
    }

    /// A repository without jobs.
    pub fn new() -> (repository: Self)
        ensures
            repository@ == RepositoryState::empty(),
            repository@.wf(),
    {
        InMemoryJobRepository { jobs: HashMap::new(), queue: VecDeque::new() }
    }

    /// The number of jobs that the index holds. `enqueue` needs room for one
    /// more: a caller that cannot rule out a full index asks here first.
    pub fn len(&self) -> (total: usize)
        ensures
            total == self@.total(),
    {
        self.jobs.len()
    }
}

impl Default for InMemoryJobRepository {
    fn default() -> (repository: Self)
        ensures
            repository@ == RepositoryState::empty(),
            repository@.wf(),
    {
        InMemoryJobRepository::new()
    }
}

impl JobRepository for InMemoryJobRepository {
    fn enqueue(&mut self, job_type: JobType) -> (result: Result<Job, JobRepositoryError>) {
        proof {
            if self@.wf() {
                enqueue_preserves_wf(self@, job_type);
            }
        }
        let id = self.jobs.len() + 1;
        let job = Job { id, job_type, status: JobStatus::Queued };
        self.queue.push_back(id);
        self.jobs.insert(id, job);
        Ok(job)
    }

    fn dequeue(&mut self) -> (result: Result<Job, JobRepositoryError>) {
        proof {
            if self@.wf() {
                dequeue_preserves_wf(self@);
            }
        }
        let pending = self.queue.len();
        if pending == 0 {
            return Err(JobRepositoryError::Empty);
        }
        let id = self.queue[pending - 1];
        match self.jobs.get(&id) {
            Some(job) => match job.status {
                JobStatus::Queued => {
                    let started = job.transition(JobStatus::InProgress);
                    self.queue.pop_back();
                    self.jobs.insert(id, started);
                    Ok(started)
                },
                _ => Err(JobRepositoryError::Unknown),
            },
            None => Err(JobRepositoryError::Unknown),
        }
    }

    fn conclude(&mut self, id: usize) -> (result: Result<Job, JobRepositoryError>) {
        proof {
            if self@.wf() {
                conclude_preserves_wf(self@, id);
            }
        }
        match self.jobs.get(&id) {
            None => Err(JobRepositoryError::NotFound(id)),
            Some(job) => match job.status {
                JobStatus::InProgress => {
                    let concluded = job.transition(JobStatus::Concluded);
                    self.jobs.insert(id, concluded);
                    Ok(concluded)
                },
                _ => Err(JobRepositoryError::InvalidStatus(id)),
            },
        }
    }

    fn find(&self, id: usize) -> (result: Result<Job, JobRepositoryError>) {
        match self.jobs.get(&id) {
            Some(job) => Ok(*job),
            None => Err(JobRepositoryError::NotFound(id)),
        }
    }

    fn cancel(&mut self, id: usize) -> (result: Result<Job, JobRepositoryError>) {
        proof {
            if self@.wf() {
                cancel_preserves_wf(self@, id);
            }
        }
        match self.jobs.get(&id) {
            None => Err(JobRepositoryError::NotFound(id)),
            Some(job) => match job.status {
                JobStatus::Queued | JobStatus::InProgress => {
                    let cancelled = job.transition(JobStatus::Cancelled);
                    purge(&mut self.queue, &self.jobs, id);
                    self.jobs.insert(id, cancelled);
                    Ok(cancelled)
                },
                _ => Err(JobRepositoryError::InvalidStatus(id)),
            },
        }
    }
}

} // verus!
