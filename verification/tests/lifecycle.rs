use g_flite::error::Error;
use g_flite::lifecycle::{
    accept_submission, Controller, JobStatus, Phase, PollResponse, ProgressEvent, RunOutcome,
};

fn respond(status: JobStatus, progress: u64) -> PollResponse {
    PollResponse { status, progress }
}

#[test]
fn emits_deltas_and_reset_in_order() {
    // Poll sequence 0.2, 0.5, restart, 0.1, 1.0 (finished), in millionths.
    let responses = vec![
        respond(JobStatus::Running, 200_000),
        respond(JobStatus::Running, 500_000),
        respond(JobStatus::Restarted, 0),
        respond(JobStatus::Running, 100_000),
        respond(JobStatus::Finished, 1_000_000),
    ];
    let mut controller = Controller::new();
    let mut events: Vec<ProgressEvent> = Vec::new();
    for r in &responses {
        if let Some(e) = controller.on_response(r) {
            events.push(e);
        }
    }
    assert_eq!(
        events,
        vec![
            ProgressEvent::Delta(200_000),
            ProgressEvent::Delta(300_000),
            ProgressEvent::Reset,
            ProgressEvent::Delta(100_000),
            ProgressEvent::Delta(900_000),
        ]
    );
    assert_eq!(controller.phase, Phase::Finished);
    assert_eq!(controller.conclude(), Ok(RunOutcome::Completed));
}

#[test]
fn ignores_progress_that_does_not_advance() {
    let mut controller = Controller::new();
    assert_eq!(
        controller.on_response(&respond(JobStatus::Running, 400_000)),
        Some(ProgressEvent::Delta(400_000))
    );
    assert_eq!(
        controller.on_response(&respond(JobStatus::Running, 300_000)),
        None
    );
    assert_eq!(
        controller.on_response(&respond(JobStatus::Running, 400_000)),
        None
    );
    assert_eq!(controller.best, 400_000);
    assert_eq!(controller.phase, Phase::Polling);
}

#[test]
fn aborted_job_is_a_backend_error() {
    let mut controller = Controller::new();
    controller.on_response(&respond(JobStatus::Running, 250_000));
    assert_eq!(
        controller.on_response(&respond(JobStatus::Aborted, 250_000)),
        None
    );
    assert_eq!(controller.phase, Phase::Aborted);
    let err = controller.conclude().unwrap_err();
    assert_eq!(
        err,
        Error::Backend {
            detail: "the job was aborted".to_string()
        }
    );
    assert_eq!(err.message(), "backend error: the job was aborted");
}

#[test]
fn timed_out_job_is_a_backend_error() {
    let mut controller = Controller::new();
    controller.on_response(&respond(JobStatus::TimedOut, 0));
    assert_eq!(controller.phase, Phase::TimedOut);
    assert_eq!(
        controller.conclude(),
        Err(Error::Backend {
            detail: "the job timed out".to_string()
        })
    );
}

#[test]
fn cancellation_wins_at_the_poll_boundary() {
    let mut controller = Controller::new();
    controller.on_response(&respond(JobStatus::Running, 700_000));
    assert!(!controller.check_cancel(false));
    assert_eq!(controller.phase, Phase::Polling);
    assert!(controller.check_cancel(true));
    assert_eq!(controller.phase, Phase::Cancelled);
    assert_eq!(controller.conclude(), Ok(RunOutcome::CancelledByUser));
}

#[test]
fn restart_resets_tracked_progress() {
    let mut controller = Controller::new();
    controller.on_response(&respond(JobStatus::Running, 900_000));
    assert_eq!(
        controller.on_response(&respond(JobStatus::Restarted, 0)),
        Some(ProgressEvent::Reset)
    );
    assert_eq!(controller.best, 0);
    assert_eq!(controller.phase, Phase::Polling);
}

#[test]
fn submission_needs_a_job_id() {
    let handle = accept_submission(Some("job-42".to_string())).unwrap();
    assert_eq!(handle.id, "job-42");
    let err = accept_submission(None).unwrap_err();
    assert_eq!(
        err,
        Error::Protocol {
            detail: "the backend response did not carry a job id".to_string()
        }
    );
    assert_eq!(
        err.message(),
        "protocol error: the backend response did not carry a job id"
    );
}
