use rebuilderd::queue::{
    JobAssignment, PopQueuedJobRequest, Priority, QueueJobRequest, QueuedJob, QueuedJobArtifact,
    QueuedJobWithArtifacts,
};
use rebuilderd::time::{Elapsed, Timestamp};

fn at(secs: i64, nanos: u32) -> Timestamp {
    Timestamp::new(secs, nanos).unwrap()
}

fn job(next_retry: Option<Timestamp>, started_at: Option<Timestamp>) -> QueuedJob {
    QueuedJob {
        id: 1,
        name: "rust".to_string(),
        version: "1.80".to_string(),
        distribution: "debian".to_string(),
        release: Some("sid".to_string()),
        component: None,
        architecture: "amd64".to_string(),
        backend: "debian".to_string(),
        url: "https://example.org/rust.dsc".to_string(),
        next_retry,
        priority: Priority(2),
        queued_at: at(1, 0),
        started_at,
    }
}

#[test]
fn job_is_due_from_its_retry_time_on() {
    let retry = job(Some(at(100, 5)), None);
    assert!(!retry.is_due(at(99, 999_999_999)));
    assert!(!retry.is_due(at(100, 4)));
    assert!(retry.is_due(at(100, 5)));
    assert!(retry.is_due(at(100, 6)));
    assert!(retry.is_due(at(101, 0)));
    assert!(job(None, None).is_due(at(-100, 0)));
}

#[test]
fn started_job_is_running() {
    let started = job(None, Some(at(100, 5)));
    assert_eq!(
        started.running_since(at(160, 3)),
        Some(Elapsed { seconds: 59, subsec_nanos: 999_999_998 })
    );
    assert_eq!(
        started.running_since(at(100, 0)),
        Some(Elapsed { seconds: 0, subsec_nanos: -5 })
    );
    assert_eq!(job(None, None).running_since(at(160, 3)), None);
}

#[test]
fn running_time_keeps_up_with_the_clock() {
    let started = job(None, Some(at(10, 0)));
    let earlier = started.running_since(at(20, 1)).unwrap();
    let later = started.running_since(at(30, 3)).unwrap();
    assert_eq!(earlier, Elapsed { seconds: 10, subsec_nanos: 1 });
    assert_eq!(later, Elapsed { seconds: 20, subsec_nanos: 3 });
}

#[test]
fn jobs_are_assigned_with_their_artifacts() {
    let assigned = QueuedJobWithArtifacts {
        job: job(None, None),
        artifacts: vec![QueuedJobArtifact {
            name: "rust".to_string(),
            version: "1.80".to_string(),
            architecture: "amd64".to_string(),
            url: "https://example.org/rust.deb".to_string(),
        }],
    };
    let assignment = JobAssignment::Rebuild(Box::new(assigned.clone()));
    assert_eq!(assignment.clone(), JobAssignment::Rebuild(Box::new(assigned)));
    assert_ne!(assignment, JobAssignment::Nothing);
}

#[test]
fn requests_hold_their_parts() {
    let request = QueueJobRequest {
        distribution: None,
        release: None,
        component: None,
        name: Some("rust".to_string()),
        version: None,
        architecture: None,
        status: None,
        priority: Some(Priority(1)),
        reset: true,
    };
    assert!(request.reset && request.priority == Some(Priority(1)));
    let pop = PopQueuedJobRequest {
        supported_backends: vec!["debian".to_string()],
        architecture: "amd64".to_string(),
        supported_architectures: vec!["amd64".to_string(), "i386".to_string()],
    };
    assert_eq!(pop.supported_architectures.len(), 2);
}
