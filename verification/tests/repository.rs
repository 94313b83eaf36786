use cfqueue::repository::job_repository::InMemoryJobRepository;
use cfqueue::repository::{JobRepository, JobRepositoryError, JobStatus, JobType};

#[test]
fn test_enqueue() {
    // given
    let mut job_repository = InMemoryJobRepository::new();
    // when
    let job = job_repository.enqueue(JobType::TimeCritical).unwrap();
    // then
    assert_eq!(job.id, 1);
    assert_eq!(job.job_type, JobType::TimeCritical);
    assert_eq!(job.status, JobStatus::Queued);
}

#[test]
fn test_check_id_increment() {
    // given
    let mut job_repository = InMemoryJobRepository::new();
    for _ in 0..1000 {
        job_repository.enqueue(JobType::TimeCritical).unwrap();
    }
    // when
    let job = job_repository.enqueue(JobType::NotTimeCritical).unwrap();
    // then
    assert_eq!(job.id, 1001);
    assert_eq!(job.job_type, JobType::NotTimeCritical);
    assert_eq!(job.status, JobStatus::Queued);
}

#[test]
fn test_dequeue_when_empty() {
    // given
    let mut job_repository = InMemoryJobRepository::new();
    // when
    let err = job_repository.dequeue().expect_err("fail");
    // then
    assert_eq!(err, JobRepositoryError::Empty);
}

#[test]
fn test_double_dequeue_when_empty() {
    // given
    let mut job_repository = InMemoryJobRepository::new();
    job_repository.enqueue(JobType::TimeCritical).unwrap();
    // when
    job_repository.dequeue().unwrap();
    // and
    let err = job_repository.dequeue().expect_err("fail");
    // then
    assert_eq!(err, JobRepositoryError::Empty);
}

#[test]
fn test_dequeue() {
    // given
    let mut job_repository = InMemoryJobRepository::new();
    let enq_job = job_repository.enqueue(JobType::TimeCritical).unwrap();
    // when
    let deq_job = job_repository.dequeue().unwrap();
    // then
    assert_eq!(deq_job.id, enq_job.id);
    assert_eq!(deq_job.id, 1);
    assert_eq!(deq_job.job_type, enq_job.job_type);
    assert_eq!(deq_job.job_type, JobType::TimeCritical);
    assert_eq!(enq_job.status, JobStatus::Queued);
    assert_eq!(deq_job.status, JobStatus::InProgress);
}

#[test]
fn test_conclude_when_not_found() {
    // given
    let mut job_repository = InMemoryJobRepository::new();
    let id = 1;
    // when
    let error = job_repository.conclude(id).expect_err("fail");
    // then
    assert_eq!(error, JobRepositoryError::NotFound(id));
}

#[test]
fn test_conclude_when_not_in_progress() {
    // given
    let mut job_repository = InMemoryJobRepository::new();
    let job = job_repository.enqueue(JobType::TimeCritical).unwrap();
    // when
    let error = job_repository.conclude(job.id).expect_err("fail");
    // then
    assert_eq!(error, JobRepositoryError::InvalidStatus(job.id));
}

#[test]
fn test_conclude() {
    // given
    let mut job_repository = InMemoryJobRepository::new();
    job_repository.enqueue(JobType::NotTimeCritical).unwrap();
    let job = job_repository.dequeue().unwrap();
    // when
    let job = job_repository.conclude(job.id).unwrap();
    // then
    assert_eq!(job.id, 1);
    assert_eq!(job.status, JobStatus::Concluded);
    assert_eq!(job.job_type, JobType::NotTimeCritical);
}

#[test]
fn test_find() {
    let mut job_repository = InMemoryJobRepository::new();
    let job = job_repository.enqueue(JobType::TimeCritical).unwrap();
    let job = job_repository.find(job.id).unwrap();
    assert_eq!(job.id, 1);
    assert_eq!(job.status, JobStatus::Queued);
    assert_eq!(job.job_type, JobType::TimeCritical);
    let job = job_repository.dequeue().unwrap();
    let job = job_repository.find(job.id).unwrap();
    assert_eq!(job.id, 1);
    assert_eq!(job.status, JobStatus::InProgress);
    assert_eq!(job.job_type, JobType::TimeCritical);
    let job = job_repository.conclude(job.id).unwrap();
    assert_eq!(job.id, 1);
    assert_eq!(job.status, JobStatus::Concluded);
    assert_eq!(job.job_type, JobType::TimeCritical);
    let job = job_repository.find(job.id).unwrap();
    let job = job_repository.find(job.id).unwrap();
    assert_eq!(job.id, 1);
    assert_eq!(job.status, JobStatus::Concluded);
    assert_eq!(job.job_type, JobType::TimeCritical);
}

#[test]
fn test_full_flow() {
    let mut job_repository = InMemoryJobRepository::new();
    let job = job_repository.enqueue(JobType::TimeCritical).unwrap();
    assert_eq!(job.id, 1);
    assert_eq!(job.status, JobStatus::Queued);
    assert_eq!(job.job_type, JobType::TimeCritical);
    let job = job_repository.dequeue().unwrap();
    assert_eq!(job.id, 1);
    assert_eq!(job.status, JobStatus::InProgress);
    assert_eq!(job.job_type, JobType::TimeCritical);
    let job = job_repository.conclude(job.id).unwrap();
    assert_eq!(job.id, 1);
    assert_eq!(job.status, JobStatus::Concluded);
    assert_eq!(job.job_type, JobType::TimeCritical);
    let job = job_repository.find(job.id).unwrap();
    assert_eq!(job.id, 1);
    assert_eq!(job.status, JobStatus::Concluded);
    assert_eq!(job.job_type, JobType::TimeCritical);
}

#[test]
fn test_stats() {
    let mut job_repository = InMemoryJobRepository::new();
    // given
    job_repository.enqueue(JobType::TimeCritical).unwrap();
    job_repository.enqueue(JobType::TimeCritical).unwrap();
    job_repository.enqueue(JobType::TimeCritical).unwrap();
    job_repository.enqueue(JobType::TimeCritical).unwrap();
    job_repository.enqueue(JobType::TimeCritical).unwrap();
    job_repository.enqueue(JobType::TimeCritical).unwrap();

    job_repository.dequeue().unwrap();
    job_repository.dequeue().unwrap();
    let job = job_repository.dequeue().unwrap();

    job_repository.conclude(job.id).unwrap();
    // when
    let (queued, in_progress, concluded, cancelled) = job_repository.stats();
    // then
    assert_eq!(queued, 3);
    assert_eq!(in_progress, 2);
    assert_eq!(concluded, 1);
    assert_eq!(cancelled, 0);
}

#[test]
fn test_cancel_when_job_status_is_queued() {
    // given
    let mut job_repository = InMemoryJobRepository::new();
    let _ = job_repository.enqueue(JobType::TimeCritical);
    let _ = job_repository.enqueue(JobType::TimeCritical);
    let _ = job_repository.enqueue(JobType::TimeCritical);
    let job = job_repository.enqueue(JobType::NotTimeCritical).unwrap();
    // when
    let cancelled_job = job_repository.cancel(job.id).unwrap();
    // then
    assert_eq!(job.id, cancelled_job.id);
    assert_eq!(job.job_type, cancelled_job.job_type);
    assert_eq!(JobStatus::Cancelled, cancelled_job.status);
}

#[test]
fn test_cancel_when_job_status_is_in_progress() {
    // given
    let mut job_repository = InMemoryJobRepository::new();
    let _ = job_repository.enqueue(JobType::TimeCritical);
    let _ = job_repository.enqueue(JobType::TimeCritical);
    let _ = job_repository.enqueue(JobType::TimeCritical);
    let job = job_repository.enqueue(JobType::NotTimeCritical).unwrap();
    let dequeued_job = job_repository.dequeue().unwrap();
    // when
    let cancelled_job = job_repository.cancel(dequeued_job.id).unwrap();
    // then
    assert_eq!(job.id, cancelled_job.id);
    assert_eq!(job.job_type, cancelled_job.job_type);
    assert_eq!(JobStatus::Cancelled, cancelled_job.status);
}
