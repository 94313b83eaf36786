//! The consistency of a repository, and the proof that no operation breaks it.

use super::history::{enqueues, Operation};
use super::state::RepositoryState;
use super::{Job, JobRepositoryError, JobStatus, JobType};
use vstd::prelude::*;

verus! {

/// Every entry of a consistent pending queue is a queued job of the index.
pub proof fn pending_entries_are_queued(state: RepositoryState, i: int)
    requires
        state.wf(),
        0 <= i < state.pending.len(),
    ensures
        state.has_status(state.pending[i], JobStatus::Queued),
        1 <= state.pending[i] <= state.total(),
{
    assert(state.pending.contains(state.pending[i]));
}

/// `enqueue` keeps a repository consistent and adds exactly one job to it.
pub proof fn enqueue_preserves_wf(state: RepositoryState, job_type: JobType)
    requires
        state.wf(),
        state.total() < usize::MAX,
    ensures
        state.enqueue(job_type).wf(),
        state.enqueue(job_type).total() == state.total() + 1,
        state.enqueued_job(job_type).id == state.total() + 1,
{
    let after = state.enqueue(job_type);
    let job = state.enqueued_job(job_type);
    assert(!state.jobs.contains_key(job.id));
    assert(after.jobs.dom() =~= state.jobs.dom().insert(job.id));
    assert forall|i: int, j: int| 0 <= i < j < after.pending.len() implies after.pending[i]
        < after.pending[j] by {
        if j == state.pending.len() {
            pending_entries_are_queued(state, i);
        }
    }
    assert forall|id: usize| #[trigger]
        after.pending.contains(id) <==> after.has_status(id, JobStatus::Queued) by {
        if after.pending.contains(id) {
            let i = choose|i: int| 0 <= i < after.pending.len() && after.pending[i] == id;
            if i < state.pending.len() {
                assert(state.pending[i] == id);
                assert(state.pending.contains(id));
            }
        }
        if after.has_status(id, JobStatus::Queued) {
            if id == job.id {
                assert(after.pending[state.pending.len() as int] == id);
            } else {
                assert(state.pending.contains(id));
                let i = choose|i: int| 0 <= i < state.pending.len() && state.pending[i] == id;
                assert(after.pending[i] == id);
            }
        }
    }
}

/// In a consistent repository `dequeue` never meets an entry that the index
/// does not hold as queued, and it leaves the repository consistent.
pub proof fn dequeue_preserves_wf(state: RepositoryState)
    requires
        state.wf(),
    ensures
        state.dequeue().wf(),
        state.dequeue().total() == state.total(),
        state.dequeue_result() != Err::<Job, JobRepositoryError>(JobRepositoryError::Unknown),
{
    if state.pending.len() > 0 {
        let last = state.pending.len() - 1;
        let id = state.pending.last();
        let after = state.dequeue();
        pending_entries_are_queued(state, last);
        assert(after.jobs.dom() =~= state.jobs.dom());
        assert forall|entry: usize| #[trigger]
            after.pending.contains(entry) <==> after.has_status(entry, JobStatus::Queued) by {
            if after.pending.contains(entry) {
                let i = choose|i: int| 0 <= i < after.pending.len() && after.pending[i] == entry;
                assert(state.pending[i] == entry);
                assert(state.pending[i] < state.pending[last]);
                assert(state.pending.contains(entry));
            }
            if after.has_status(entry, JobStatus::Queued) {
                assert(state.pending.contains(entry));
                let i = choose|i: int| 0 <= i < state.pending.len() && state.pending[i] == entry;
                assert(after.pending[i] == entry);
            }
        }
    }
}

/// `conclude` leaves a consistent repository consistent.
pub proof fn conclude_preserves_wf(state: RepositoryState, id: usize)
    requires
        state.wf(),
    ensures
        state.conclude(id).wf(),
        state.conclude(id).total() == state.total(),
{
    if state.conclude_result(id) is Ok {
        let after = state.conclude(id);
        assert(after.jobs.dom() =~= state.jobs.dom());
        assert forall|entry: usize| #[trigger]
            after.pending.contains(entry) <==> after.has_status(entry, JobStatus::Queued) by {
            assert(state.pending.contains(entry) <==> state.has_status(entry, JobStatus::Queued));
        }
    }
}

/// The entries that a filter keeps are those of the queue that pass it, and
/// they stay in ascending order.
proof fn filter_keeps_order(queue: Seq<usize>, keep: spec_fn(usize) -> bool)
    requires
        forall|i: int, j: int| 0 <= i < j < queue.len() ==> queue[i] < queue[j],
    ensures
        forall|i: int, j: int|
            0 <= i < j < queue.filter(keep).len() ==> queue.filter(keep)[i] < queue.filter(
                keep,
            )[j],
        forall|entry: usize|
            #![trigger queue.filter(keep).contains(entry)]
            #![trigger queue.contains(entry)]
            queue.filter(keep).contains(entry) <==> queue.contains(entry) && keep(entry),
    decreases queue.len(),
{
    reveal(Seq::filter);
    let kept = queue.filter(keep);
    if queue.len() > 0 {
        let front = queue.drop_last();
        let last = queue.last();
        filter_keeps_order(front, keep);
        assert forall|entry: usize| kept.contains(entry) <==> queue.contains(entry) && keep(
            entry,
        ) by {
            if kept.contains(entry) {
                let i = choose|i: int| 0 <= i < kept.len() && kept[i] == entry;
                if i < front.filter(keep).len() {
                    assert(front.filter(keep)[i] == entry);
                    assert(front.filter(keep).contains(entry));
                    assert(front.contains(entry));
                    let k = choose|k: int| 0 <= k < front.len() && front[k] == entry;
                    assert(queue[k] == entry);
                } else {
                    assert(queue[queue.len() - 1] == entry);
                }
            }
            if queue.contains(entry) && keep(entry) {
                let k = choose|k: int| 0 <= k < queue.len() && queue[k] == entry;
                if k < front.len() {
                    assert(front[k] == entry);
                    assert(front.contains(entry));
                    let i = choose|i: int|
                        0 <= i < front.filter(keep).len() && front.filter(keep)[i] == entry;
                    assert(kept[i] == entry);
                } else {
                    assert(kept[kept.len() - 1] == entry);
                }
            }
        }
        assert forall|i: int, j: int| 0 <= i < j < kept.len() implies kept[i] < kept[j] by {
            if j == front.filter(keep).len() {
                assert(front.filter(keep).contains(kept[i]));
                let k = choose|k: int| 0 <= k < front.len() && front[k] == kept[i];
                assert(queue[k] < queue[queue.len() - 1]);
            }
        }
    }
}

/// In a consistent repository the pending queue holds no cancelled job, so
/// `cancel` takes out nothing but the job it was asked for; and it leaves
/// the repository consistent.
pub proof fn cancel_preserves_wf(state: RepositoryState, id: usize)
    requires
        state.wf(),
    ensures
        state.cancel(id).wf(),
        state.cancel(id).total() == state.total(),
        state.purged(id) == state.pending.filter(|entry: usize| entry != id),
{
    let keep = |entry: usize| !state.stale(id, entry);
    let other = |entry: usize| entry != id;
    filter_keeps_order(state.pending, keep);
    filter_keeps_order(state.pending, other);
    assert forall|i: int| 0 <= i < state.pending.len() implies keep(state.pending[i]) == other(
        state.pending[i],
    ) by {
        pending_entries_are_queued(state, i);
    }
    same_filter(state.pending, keep, other);
    if state.cancel_result(id) is Ok {
        let after = state.cancel(id);
        assert(after.jobs.dom() =~= state.jobs.dom());
        assert forall|entry: usize| #[trigger]
            after.pending.contains(entry) <==> after.has_status(entry, JobStatus::Queued) by {
            assert(state.pending.contains(entry) <==> state.has_status(entry, JobStatus::Queued));
        }
    }
}

/// Two filters that agree on every entry of a queue keep the same entries.
proof fn same_filter(queue: Seq<usize>, f: spec_fn(usize) -> bool, g: spec_fn(usize) -> bool)
    requires
        forall|i: int| 0 <= i < queue.len() ==> f(queue[i]) == g(queue[i]),
    ensures
        queue.filter(f) == queue.filter(g),
    decreases queue.len(),
{
    reveal(Seq::filter);
    if queue.len() > 0 {
        same_filter(queue.drop_last(), f, g);
    }
}

/// Every operation leaves a consistent repository consistent, and only
/// `enqueue` adds a job to the index.
pub proof fn apply_preserves_wf(state: RepositoryState, operation: Operation)
    requires
        state.wf(),
        operation is Enqueue ==> state.total() < usize::MAX,
    ensures
        state.apply(operation).wf(),
        state.apply(operation).total() == state.total() + if operation is Enqueue {
            1nat
        } else {
            0nat
        },
{
    match operation {
        Operation::Enqueue(job_type) => enqueue_preserves_wf(state, job_type),
        Operation::Dequeue => dequeue_preserves_wf(state),
        Operation::Conclude(id) => conclude_preserves_wf(state, id),
        Operation::Cancel(id) => cancel_preserves_wf(state, id),
    }
}

/// Whatever is done to a new repository, in whatever order, it stays
/// consistent, and its index holds as many jobs as were enqueued.
pub proof fn reachable_states_are_consistent(operations: Seq<Operation>)
    requires
        enqueues(operations) <= usize::MAX,
    ensures
        RepositoryState::empty().run(operations).wf(),
        RepositoryState::empty().run(operations).total() == enqueues(operations),
    decreases operations.len(),
{
    reveal(Seq::filter);
    if operations.len() == 0 {
        assert(RepositoryState::empty().pending.len() == 0);
    } else {
        reachable_states_are_consistent(operations.drop_last());
        apply_preserves_wf(
            RepositoryState::empty().run(operations.drop_last()),
            operations.last(),
        );
    }
}

} // verus!
