//! What holds of every repository, proved over [`RepositoryState`] and over
//! the histories that lead to it.

use super::consistency::{
    dequeue_preserves_wf, enqueue_preserves_wf, pending_entries_are_queued,
    reachable_states_are_consistent,
};
use super::history::{enqueues, moves, Operation};
use super::state::RepositoryState;
use super::{Job, JobRepositoryError, JobStatus, JobType};
use vstd::prelude::*;

verus! {

/// The four statuses split the index: every job is counted under exactly
/// one of them.
pub proof fn counts_add_up_to_total(state: RepositoryState)
    requires
        state.jobs.dom().finite(),
    ensures
        state.count(JobStatus::Queued) + state.count(JobStatus::InProgress) + state.count(
            JobStatus::Concluded,
        ) + state.count(JobStatus::Cancelled) == state.total(),
{
    let queued = state.ids_with(JobStatus::Queued);
    let in_progress = state.ids_with(JobStatus::InProgress);
    let concluded = state.ids_with(JobStatus::Concluded);
    let cancelled = state.ids_with(JobStatus::Cancelled);
    let ids = state.jobs.dom();
    ids.lemma_len_filter(|id: usize| state.jobs[id].status == JobStatus::Queued);
    ids.lemma_len_filter(|id: usize| state.jobs[id].status == JobStatus::InProgress);
    ids.lemma_len_filter(|id: usize| state.jobs[id].status == JobStatus::Concluded);
    ids.lemma_len_filter(|id: usize| state.jobs[id].status == JobStatus::Cancelled);
    vstd::set_lib::lemma_set_disjoint_lens(queued, in_progress);
    vstd::set_lib::lemma_set_disjoint_lens(queued + in_progress, concluded);
    vstd::set_lib::lemma_set_disjoint_lens(queued + in_progress + concluded, cancelled);
    assert(queued.disjoint(in_progress));
    assert((queued + in_progress).disjoint(concluded));
    assert((queued + in_progress + concluded).disjoint(cancelled));
    assert(queued + in_progress + concluded + cancelled =~= ids);
}

/// In a consistent repository the pending queue is as long as there are
/// queued jobs.
pub proof fn pending_counts_queued(state: RepositoryState)
    requires
        state.wf(),
    ensures
        state.pending.len() == state.count(JobStatus::Queued),
{
    state.pending.unique_seq_to_set();
    assert(state.pending.to_set() =~= state.ids_with(JobStatus::Queued));
}

/// `dequeue` on a consistent repository without a queued job is refused
/// with `Empty`; with a queued job it succeeds.
pub proof fn dequeue_is_empty_without_queued_jobs(state: RepositoryState)
    requires
        state.wf(),
    ensures
        state.count(JobStatus::Queued) == 0 ==> state.dequeue_result() == Err::<
            Job,
            JobRepositoryError,
        >(JobRepositoryError::Empty),
        state.count(JobStatus::Queued) > 0 ==> state.dequeue_result() is Ok,
{
    pending_counts_queued(state);
    dequeue_preserves_wf(state);
}

/// `dequeue` hands out the queued job that was enqueued last: no queued job
/// has a greater identifier.
pub proof fn dequeue_takes_newest(state: RepositoryState, id: usize)
    requires
        state.wf(),
        state.has_status(id, JobStatus::Queued),
    ensures
        state.dequeue_result() is Ok,
        id <= state.dequeue_result()->Ok_0.id,
        state.dequeue_result()->Ok_0.status == JobStatus::InProgress,
{
    assert(state.pending.contains(id));
    let i = choose|i: int| 0 <= i < state.pending.len() && state.pending[i] == id;
    let last = state.pending.len() - 1;
    pending_entries_are_queued(state, last);
    if i < last {
        assert(state.pending[i] < state.pending[last]);
    }
}

/// Of two jobs enqueued one after the other, `dequeue` returns the second
/// first and the first second.
pub proof fn last_in_first_out(state: RepositoryState, first: JobType, second: JobType)
    requires
        state.wf(),
        state.total() + 2 <= usize::MAX,
    ensures
        ({
            let both = state.enqueue(first).enqueue(second);
            let a = state.enqueued_job(first);
            let b = state.enqueue(first).enqueued_job(second);
            &&& a.id + 1 == b.id
            &&& both.dequeue_result() == Ok::<Job, JobRepositoryError>(
                b.with_status(JobStatus::InProgress),
            )
            &&& both.dequeue().dequeue_result() == Ok::<Job, JobRepositoryError>(
                a.with_status(JobStatus::InProgress),
            )
        }),
{
    let one = state.enqueue(first);
    let both = one.enqueue(second);
    enqueue_preserves_wf(state, first);
    enqueue_preserves_wf(one, second);
    assert(both.pending.drop_last() =~= one.pending);
    assert(one.pending.drop_last() =~= state.pending);
}

/// Identifiers count up from 1 without a gap: after any operations of which
/// `n` were enqueues, the next job enqueued gets the identifier `n + 1`,
/// whatever else was done in between.
pub proof fn identifiers_count_up(operations: Seq<Operation>, job_type: JobType)
    requires
        enqueues(operations) < usize::MAX,
    ensures
        RepositoryState::empty().run(operations).enqueued_job(job_type).id == enqueues(operations)
            + 1,
        forall|id: usize|
            RepositoryState::empty().run(operations).jobs.contains_key(id) <==> 1 <= id
                <= enqueues(operations),
{
    reachable_states_are_consistent(operations);
}

/// After any operations on a new repository, the numbers of queued, in
/// progress, concluded and cancelled jobs add up to the number of jobs that
/// were ever enqueued.
pub proof fn counts_add_up_to_enqueues(operations: Seq<Operation>)
    requires
        enqueues(operations) <= usize::MAX,
    ensures
        ({
            let state = RepositoryState::empty().run(operations);
            state.count(JobStatus::Queued) + state.count(JobStatus::InProgress) + state.count(
                JobStatus::Concluded,
            ) + state.count(JobStatus::Cancelled) == enqueues(operations)
        }),
{
    reachable_states_are_consistent(operations);
    counts_add_up_to_total(RepositoryState::empty().run(operations));
}

/// `conclude` succeeds exactly on a job that is in progress. Any other job
/// is refused with `InvalidStatus`, an unknown identifier with `NotFound`,
/// and a refusal leaves the repository untouched.
pub proof fn conclude_only_from_in_progress(state: RepositoryState, id: usize)
    ensures
        state.conclude_result(id) is Ok <==> state.has_status(id, JobStatus::InProgress),
        state.conclude_result(id) is Ok ==> {
            &&& state.conclude_result(id)->Ok_0 == state.jobs[id].with_status(JobStatus::Concluded)
            &&& state.conclude(id).find(id) == state.conclude_result(id)
        },
        state.conclude_result(id) == Err::<Job, JobRepositoryError>(
            JobRepositoryError::InvalidStatus(id),
        ) <==> state.jobs.contains_key(id) && state.jobs[id].status != JobStatus::InProgress,
        state.conclude_result(id) == Err::<Job, JobRepositoryError>(
            JobRepositoryError::NotFound(id),
        ) <==> !state.jobs.contains_key(id),
        state.conclude_result(id) is Err ==> state.conclude(id) == state,
{
}

/// `cancel` succeeds exactly on a job that is queued or in progress. A job
/// that is concluded or cancelled is refused with `InvalidStatus`, an
/// unknown identifier with `NotFound`, and a refusal leaves the repository
/// untouched.
pub proof fn cancel_only_from_queued_or_in_progress(state: RepositoryState, id: usize)
    ensures
        state.cancel_result(id) is Ok <==> state.has_status(id, JobStatus::Queued)
            || state.has_status(id, JobStatus::InProgress),
        state.cancel_result(id) is Ok ==> {
            &&& state.cancel_result(id)->Ok_0 == state.jobs[id].with_status(JobStatus::Cancelled)
            &&& state.cancel(id).find(id) == state.cancel_result(id)
        },
        state.cancel_result(id) == Err::<Job, JobRepositoryError>(
            JobRepositoryError::InvalidStatus(id),
        ) <==> state.has_status(id, JobStatus::Concluded) || state.has_status(
            id,
            JobStatus::Cancelled,
        ),
        state.cancel_result(id) == Err::<Job, JobRepositoryError>(
            JobRepositoryError::NotFound(id),
        ) <==> !state.jobs.contains_key(id),
        state.cancel_result(id) is Err ==> state.cancel(id) == state,
{
}

/// In a consistent repository `find` returns, for the job that an operation
/// has just returned, that very record.
pub proof fn find_reflects_latest_state(state: RepositoryState, operation: Operation)
    requires
        state.wf(),
        operation is Enqueue ==> state.total() < usize::MAX,
        state.outcome(operation) is Ok,
    ensures
        state.apply(operation).find(state.outcome(operation)->Ok_0.id) == state.outcome(operation),
{
    if operation is Dequeue {
        pending_entries_are_queued(state, state.pending.len() - 1);
    }
}

/// Cancelling a cancelled job again is refused with `InvalidStatus`, however
/// often it is tried, and the repository stays exactly as it was.
pub proof fn repeated_cancel_changes_nothing(state: RepositoryState, id: usize, times: nat)
    requires
        state.has_status(id, JobStatus::Cancelled),
    ensures
        state.cancel_result(id) == Err::<Job, JobRepositoryError>(
            JobRepositoryError::InvalidStatus(id),
        ),
        state.run(Seq::new(times, |i: int| Operation::Cancel(id))) == state,
    decreases times,
{
    if times > 0 {
        let again = Seq::new(times, |i: int| Operation::Cancel(id));
        repeated_cancel_changes_nothing(state, id, (times - 1) as nat);
        assert(again.drop_last() =~= Seq::new((times - 1) as nat, |i: int| Operation::Cancel(id)));
    }
}

/// A job that `cancel` accepted is cancelled afterwards, so every further
/// `cancel` of it is refused.
pub proof fn cancel_succeeds_once(state: RepositoryState, id: usize)
    requires
        state.cancel_result(id) is Ok,
    ensures
        state.cancel(id).has_status(id, JobStatus::Cancelled),
        state.cancel(id).cancel_result(id) == Err::<Job, JobRepositoryError>(
            JobRepositoryError::InvalidStatus(id),
        ),
        state.cancel(id).cancel(id) == state.cancel(id),
{
}

/// An operation that is refused leaves the repository exactly as it was.
pub proof fn refusals_change_nothing(state: RepositoryState, operation: Operation)
    requires
        state.outcome(operation) is Err,
    ensures
        state.apply(operation) == state,
{
}

/// A record, once in the index, stays there under its identifier and keeps
/// its type; its status changes only along the lifecycle.
pub proof fn jobs_follow_the_lifecycle(state: RepositoryState, operation: Operation, id: usize)
    requires
        state.wf(),
        operation is Enqueue ==> state.total() < usize::MAX,
        state.jobs.contains_key(id),
    ensures
        ({
            let before = state.jobs[id];
            let after = state.apply(operation).jobs[id];
            &&& state.apply(operation).jobs.contains_key(id)
            &&& after.id == before.id
            &&& after.job_type == before.job_type
            &&& after.status == before.status || moves(operation, id, before.status, after.status)
        }),
{
    if operation is Dequeue && state.pending.len() > 0 {
        pending_entries_are_queued(state, state.pending.len() - 1);
    }
}

/// Running one operation more is running the others and then that one.
proof fn run_one_more(state: RepositoryState, operations: Seq<Operation>, upto: int)
    requires
        0 <= upto < operations.len(),
    ensures
        state.run(operations.take(upto + 1)) == state.run(operations.take(upto)).apply(
            operations[upto],
        ),
        enqueues(operations.take(upto + 1)) == enqueues(operations.take(upto))
            + if operations[upto] is Enqueue {
            1nat
        } else {
            0nat
        },
{
    reveal(Seq::filter);
    assert(operations.take(upto + 1).drop_last() =~= operations.take(upto));
}

/// A part of a history has no more enqueues than the whole.
proof fn enqueues_of_a_prefix(operations: Seq<Operation>, upto: int)
    requires
        0 <= upto <= operations.len(),
    ensures
        enqueues(operations.take(upto)) <= enqueues(operations),
    decreases operations.len() - upto,
{
    if upto < operations.len() {
        run_one_more(RepositoryState::empty(), operations, upto);
        enqueues_of_a_prefix(operations, upto + 1);
    } else {
        assert(operations.take(upto) =~= operations);
    }
}

/// A job that has left the queue is not queued at any later moment.
proof fn stays_out_of_the_queue(operations: Seq<Operation>, id: usize, since: int, upto: int)
    requires
        enqueues(operations) <= usize::MAX,
        0 <= since <= upto <= operations.len(),
        RepositoryState::empty().run(operations.take(since)).jobs.contains_key(id),
        !RepositoryState::empty().run(operations.take(since)).has_status(id, JobStatus::Queued),
    ensures
        RepositoryState::empty().run(operations.take(upto)).jobs.contains_key(id),
        !RepositoryState::empty().run(operations.take(upto)).has_status(id, JobStatus::Queued),
    decreases upto - since,
{
    if since < upto {
        stays_out_of_the_queue(operations, id, since, upto - 1);
        let state = RepositoryState::empty().run(operations.take(upto - 1));
        enqueues_of_a_prefix(operations, upto - 1);
        enqueues_of_a_prefix(operations, upto);
        reachable_states_are_consistent(operations.take(upto - 1));
        run_one_more(RepositoryState::empty(), operations, upto - 1);
        jobs_follow_the_lifecycle(state, operations[upto - 1], id);
    }
}

/// No job is handed out twice: of two dequeues in the history of a
/// repository, the later one never returns the job that the earlier one
/// returned.
pub proof fn no_job_is_handed_out_twice(operations: Seq<Operation>, earlier: int, later: int)
    requires
        enqueues(operations) <= usize::MAX,
        0 <= earlier < later < operations.len(),
        operations[earlier] is Dequeue,
        operations[later] is Dequeue,
    ensures
        ({
            let first = RepositoryState::empty().run(operations.take(earlier)).dequeue_result();
            let second = RepositoryState::empty().run(operations.take(later)).dequeue_result();
            first is Ok && second is Ok ==> first->Ok_0.id != second->Ok_0.id
        }),
{
    let before = RepositoryState::empty().run(operations.take(earlier));
    let at_second = RepositoryState::empty().run(operations.take(later));
    if before.dequeue_result() is Ok && at_second.dequeue_result() is Ok {
        enqueues_of_a_prefix(operations, earlier);
        enqueues_of_a_prefix(operations, later);
        reachable_states_are_consistent(operations.take(earlier));
        reachable_states_are_consistent(operations.take(later));
        pending_entries_are_queued(before, before.pending.len() - 1);
        pending_entries_are_queued(at_second, at_second.pending.len() - 1);
        let id = before.pending.last();
        run_one_more(RepositoryState::empty(), operations, earlier);
        stays_out_of_the_queue(operations, id, earlier + 1, later);
    }
}

} // verus!
