//! What a front end needs to present the repository over HTTP: the status
//! code that answers each refusal, and the body that answers a request for
//! statistics.

use crate::repository::JobRepositoryError;
use vstd::prelude::*;

verus! {

/// The status code that answers a refused operation.
pub open spec fn status_of(error: JobRepositoryError) -> u16 {
    match error {
        JobRepositoryError::NotFound(_) => 404,
        JobRepositoryError::Empty => 400,
        JobRepositoryError::InvalidStatus(_) => 409,
        JobRepositoryError::Unknown => 500,
    }
}

/// The status code that answers `error`: not found for an unknown job, bad
/// request for an empty queue, conflict for a transition that the job's
/// status forbids, and internal server error for anything else.
pub fn status_code(error: &JobRepositoryError) -> (status: u16)
    ensures
        status == status_of(*error),
        400 <= status <= 500,
        status == 500 <==> *error == JobRepositoryError::Unknown,
{
    match error {
        JobRepositoryError::NotFound(_) => 404,
        JobRepositoryError::Empty => 400,
        JobRepositoryError::InvalidStatus(_) => 409,
        JobRepositoryError::Unknown => 500,
    }
}

/// The body that answers a request for statistics.
#[derive(Debug, Clone, Copy, PartialEq, Eq, Structural)]
pub struct StatsResponse {
    pub queued: usize,
    pub in_progress: usize,
    pub concluded: usize,
    pub cancelled: usize,
    /// Milliseconds since the process started.
    pub uptime: usize,
}

/// Puts the counts of a repository, in the order queued, in progress,
/// concluded, cancelled, together with the uptime. An uptime beyond what
/// `usize` holds is cut down to its low bits.
pub fn stats_response(counts: (usize, usize, usize, usize), uptime_millis: u128) -> (response:
    StatsResponse)
    ensures
        response == (StatsResponse {
            queued: counts.0,
            in_progress: counts.1,
            concluded: counts.2,
            cancelled: counts.3,
            uptime: uptime_millis as usize,
        }),
        uptime_millis <= usize::MAX ==> response.uptime == uptime_millis,
{
    StatsResponse {
        queued: counts.0,
        in_progress: counts.1,
        concluded: counts.2,
        cancelled: counts.3,
        uptime: #[verifier::truncate]
        (uptime_millis as usize),
    }
}

} // verus!
