//! Scheduling of background git operations.
//!
//! Each operation has a slot that records whether a job for it is running
//! (`pending`) and whether another run has been asked for (`queued`). At most
//! one job per operation runs at a time; requests made while one runs are
//! coalesced into a single further run.
use vstd::prelude::*;
use crate::git::Status;

verus! {

/// A git operation that can run in the background.
#[derive(Clone, Copy, Debug, PartialEq, Eq, Structural)]
pub enum GitOperation {
    Status,
}

/// What a background git operation reports back.
#[derive(Debug)]
pub enum GitEvent {
    /// The status was loaded.
    Status(Status),
    /// The operation failed with the given message.
    Failed { operation: GitOperation, error: String },
}

/// The event that reports the outcome `result` of running `op`.
pub fn event_for(op: GitOperation, result: Result<Status, String>) -> (r: GitEvent)
    ensures
        match (op, result) {
            (GitOperation::Status, Ok(s)) => r == GitEvent::Status(s),
            (GitOperation::Status, Err(e)) => r == (GitEvent::Failed { operation: op, error: e }),
        },
{
    match op {
        GitOperation::Status => match result {
            Ok(s) => GitEvent::Status(s),
            Err(e) => GitEvent::Failed { operation: op, error: e },
        },
    }
}

/// The scheduling state of one operation.
#[derive(Clone, Copy, Debug, PartialEq, Eq, Structural)]
pub struct JobSlot {
    /// A job for the operation is running.
    pub pending: bool,
    /// Another run of the operation has been asked for.
    pub queued: bool,
}

/// The idle slot: nothing runs, nothing is asked for.
pub open spec fn idle_slot() -> JobSlot {
    JobSlot { pending: false, queued: false }
}

/// The slot after trying to start a job, and whether a job starts: only
/// when none runs and a run has been asked for.
pub open spec fn after_spawn_if_idle(s: JobSlot) -> (JobSlot, bool) {
    if s.pending {
        (s, false)
    } else if !s.queued {
        (s, false)
    } else {
        (JobSlot { pending: true, queued: false }, true)
    }
}

/// The slot after a run is asked for, and whether a job starts.
pub open spec fn after_enqueue(s: JobSlot) -> (JobSlot, bool) {
    after_spawn_if_idle(JobSlot { pending: s.pending, queued: true })
}

/// The slot after the running job finishes, and whether another starts.
pub open spec fn after_finish(s: JobSlot) -> (JobSlot, bool) {
    after_spawn_if_idle(JobSlot { pending: false, queued: s.queued })
}

/// The slot invariant: a run is only left asked for while a job runs.
pub open spec fn slot_inv(s: JobSlot) -> bool {
    s.queued ==> s.pending
}

impl JobSlot {
    /// The idle slot.
    pub fn new() -> (r: JobSlot)
        ensures
            r == idle_slot(),
    {
        JobSlot { pending: false, queued: false }
    }

    /// Starts a job if none runs and a run has been asked for; returns
    /// whether one starts.
    pub fn spawn_if_idle(&mut self) -> (spawn: bool)
        ensures
            (*final(self), spawn) == after_spawn_if_idle(*old(self)),
    {
        let was_pending = self.pending;
        self.pending = true;
        if was_pending {
            return false;
        }
        let was_queued = self.queued;
        self.queued = false;
        if !was_queued {
            self.pending = false;
            return false;
        }
        true
    }

    /// Asks for a run; returns whether a job starts now.
    pub fn enqueue(&mut self) -> (spawn: bool)
        ensures
            (*final(self), spawn) == after_enqueue(*old(self)),
    {
        self.queued = true;
        self.spawn_if_idle()
    }

    /// Records that the running job finished; returns whether another job
    /// starts for a run asked for meanwhile.
    pub fn finish(&mut self) -> (spawn: bool)
        ensures
            (*final(self), spawn) == after_finish(*old(self)),
    {
        self.pending = false;
        self.spawn_if_idle()
    }
}

/// The scheduling state of all operations.
#[derive(Clone, Copy, Debug)]
pub struct Scheduler {
    status: JobSlot,
}

impl View for Scheduler {
    type V = spec_fn(GitOperation) -> JobSlot;

    closed spec fn view(&self) -> spec_fn(GitOperation) -> JobSlot {
        let s = self.status;
        |op: GitOperation|
            match op {
                GitOperation::Status => s,
            }
    }
}

impl Scheduler {
    /// Nothing runs, nothing is asked for.
    pub fn new() -> (r: Scheduler)
        ensures
            forall|op: GitOperation| #[trigger] (r@)(op) == idle_slot(),
    {
        Scheduler { status: JobSlot::new() }
    }

    /// The slot of `op`.
    pub fn slot(&self, op: GitOperation) -> (r: JobSlot)
        ensures
            r == (self@)(op),
    {
        match op {
            GitOperation::Status => self.status,
        }
    }

    /// Asks for a run of `op`; returns whether a job for it starts now.
    /// Other operations' slots are unchanged.
    pub fn enqueue(&mut self, op: GitOperation) -> (spawn: bool)
        ensures
            ((final(self)@)(op), spawn) == after_enqueue((old(self)@)(op)),
            forall|o: GitOperation| o != op ==> #[trigger] (final(self)@)(o) == (old(self)@)(o),
    {
        match op {
            GitOperation::Status => self.status.enqueue(),
        }
    }

    /// Records that the job for `op` finished; returns whether another job
    /// for it starts. Other operations' slots are unchanged.
    pub fn finish(&mut self, op: GitOperation) -> (spawn: bool)
        ensures
            ((final(self)@)(op), spawn) == after_finish((old(self)@)(op)),
            forall|o: GitOperation| o != op ==> #[trigger] (final(self)@)(o) == (old(self)@)(o),
    {
        match op {
            GitOperation::Status => self.status.finish(),
        }
    }
}

// ---------------------------------------------------------------------------
// Laws of the scheduling
// ---------------------------------------------------------------------------

/// Asking for a run and finishing a job keep the slot invariant, and the
/// idle slot meets it.
pub proof fn law_slot_invariant(s: JobSlot)
    requires
        slot_inv(s),
    ensures
        slot_inv(idle_slot()),
        slot_inv(after_enqueue(s).0),
        slot_inv(after_finish(s).0),
{
}

/// At most one job per operation runs: a request starts a job only when
/// none runs, and after a request or a finished job, a job runs exactly
/// when the slot says one is pending.
pub proof fn law_single_job(s: JobSlot)
    requires
        slot_inv(s),
    ensures
        after_enqueue(s).1 ==> !s.pending,
        after_enqueue(s).0.pending,
        after_finish(s).0.pending == after_finish(s).1,
{
}

/// A request while no job runs starts one at once.
pub proof fn law_request_when_idle(s: JobSlot)
    requires
        slot_inv(s),
        !s.pending,
    ensures
        after_enqueue(s) == (JobSlot { pending: true, queued: false }, true),
{
}

/// No request is lost, and requests made while a job runs are coalesced:
/// after any number of them, the running job's end starts exactly one more
/// run, and the end of that run leaves the slot idle.
pub proof fn law_coalesced_requests(s: JobSlot)
    requires
        slot_inv(s),
        s.pending,
    ensures
        after_enqueue(s) == (JobSlot { pending: true, queued: true }, false),
        after_enqueue(after_enqueue(s).0) == after_enqueue(s),
        after_finish(after_enqueue(s).0) == (JobSlot { pending: true, queued: false }, true),
        after_finish(after_finish(after_enqueue(s).0).0) == (idle_slot(), false),
{
}

} // verus!
