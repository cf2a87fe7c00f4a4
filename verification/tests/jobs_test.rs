use beatcollector::enums::{JobStatus, JobType};
use beatcollector::jobs::{Job, JobMessage};

#[test]
fn submitted_job_runs_and_completes() {
    let mut job = Job::new_pending(1, JobType::SpotifySync, None, 100);
    assert_eq!(job.status, JobStatus::Pending);
    assert_eq!(job.started_at, None);
    assert_eq!(job.completed_at, None);

    job.mark_running(110);
    assert_eq!(job.status, JobStatus::Running);
    assert_eq!(job.started_at, Some(110));
    assert_eq!(job.completed_at, None);

    job.finish(None, 150);
    assert_eq!(job.status, JobStatus::Completed);
    assert_eq!(job.completed_at, Some(150));
    assert_eq!(job.error_message, None);
}

#[test]
fn failed_job_keeps_error_and_completion_time() {
    let mut job = Job::new_pending(2, JobType::MusicbrainzMatch, None, 100);
    job.mark_running(110);
    job.finish(Some("metadata service unreachable".to_string()), 170);
    assert_eq!(job.status, JobStatus::Failed);
    assert_eq!(job.error_message.as_deref(), Some("metadata service unreachable"));
    assert_eq!(job.completed_at, Some(170));
    // the start time survives the failure
    assert_eq!(job.started_at, Some(110));
}

#[test]
fn each_job_type_round_trips_through_a_message() {
    for jt in [
        JobType::SpotifySync,
        JobType::MusicbrainzMatch,
        JobType::LidarrSearch,
        JobType::CoverArtFetch,
        JobType::FilesystemScan,
    ] {
        let msg = JobMessage { job_id: 7, job_type: jt, entity_id: Some(3) };
        let job = Job::new_pending(msg.job_id, msg.job_type, msg.entity_id, 5);
        assert_eq!(job.id, 7);
        assert_eq!(job.job_type, jt);
        assert_eq!(job.entity_id, Some(3));
        assert_eq!(job.created_at, 5);
        assert_eq!(job.updated_at, 5);
    }
}
