use cfqueue::repository::JobRepositoryError;
use cfqueue::web::{stats_response, status_code, StatsResponse};

#[test]
fn not_found_is_404() {
    assert_eq!(status_code(&JobRepositoryError::NotFound(3)), 404);
}

#[test]
fn empty_is_400() {
    assert_eq!(status_code(&JobRepositoryError::Empty), 400);
}

#[test]
fn invalid_status_is_409() {
    assert_eq!(status_code(&JobRepositoryError::InvalidStatus(3)), 409);
}

#[test]
fn unknown_is_500() {
    assert_eq!(status_code(&JobRepositoryError::Unknown), 500);
}

#[test]
fn stats_response_holds_counts_and_uptime() {
    assert_eq!(
        stats_response((3, 2, 1, 0), 1234),
        StatsResponse { queued: 3, in_progress: 2, concluded: 1, cancelled: 0, uptime: 1234 }
    );
}

#[test]
fn stats_response_cuts_a_huge_uptime() {
    let beyond = (usize::MAX as u128) + 6;
    assert_eq!(stats_response((0, 0, 0, 0), beyond).uptime, 5);
    assert_eq!(stats_response((0, 0, 0, 0), usize::MAX as u128).uptime, usize::MAX);
}
