use gitui::git::Status;
use gitui::worker::{event_for, GitEvent, GitOperation, JobSlot, Scheduler};

#[test]
fn a_request_when_idle_starts_a_job() {
    let mut slot = JobSlot::new();
    assert!(slot.enqueue());
    assert_eq!(slot, JobSlot { pending: true, queued: false });
}

#[test]
fn requests_while_running_are_coalesced() {
    let mut slot = JobSlot::new();
    assert!(slot.enqueue());
    assert!(!slot.enqueue());
    assert!(!slot.enqueue());
    assert!(!slot.enqueue());
    assert_eq!(slot, JobSlot { pending: true, queued: true });
    // The running job ends: exactly one more run starts.
    assert!(slot.finish());
    assert_eq!(slot, JobSlot { pending: true, queued: false });
    // That run ends: nothing more to do.
    assert!(!slot.finish());
    assert_eq!(slot, JobSlot { pending: false, queued: false });
}

#[test]
fn spawn_if_idle_needs_a_request() {
    let mut slot = JobSlot::new();
    assert!(!slot.spawn_if_idle());
    assert_eq!(slot, JobSlot { pending: false, queued: false });
    let mut busy = JobSlot { pending: true, queued: true };
    assert!(!busy.spawn_if_idle());
    assert_eq!(busy, JobSlot { pending: true, queued: true });
}

#[test]
fn the_scheduler_tracks_each_operation() {
    let mut s = Scheduler::new();
    assert_eq!(s.slot(GitOperation::Status), JobSlot { pending: false, queued: false });
    assert!(s.enqueue(GitOperation::Status));
    assert!(!s.enqueue(GitOperation::Status));
    assert_eq!(s.slot(GitOperation::Status), JobSlot { pending: true, queued: true });
    assert!(s.finish(GitOperation::Status));
    assert!(!s.finish(GitOperation::Status));
    assert_eq!(s.slot(GitOperation::Status), JobSlot { pending: false, queued: false });
}

#[test]
fn outcomes_become_events() {
    match event_for(GitOperation::Status, Ok(Status { files_changed: Vec::new() })) {
        GitEvent::Status(s) => assert!(s.files_changed.is_empty()),
        other => panic!("unexpected {other:?}"),
    }
    match event_for(GitOperation::Status, Err("boom".to_string())) {
        GitEvent::Failed { operation, error } => {
            assert_eq!(operation, GitOperation::Status);
            assert_eq!(error, "boom");
        }
        other => panic!("unexpected {other:?}"),
    }
}
