//! The job registry: the authoritative owner of all job state.
//!
//! Jobs are stored in an arena and keyed by the identifier assigned at
//! creation, so lookups never collide and identifiers are never reused.
//! Every mutation that changes a job's status or progress publishes one
//! progress event to the bus as part of the same operation, and every
//! mutation promises `registry_step`: statuses only move along the edges of
//! the state machine, cancellation is monotone, start and completion times
//! are set at most once, and a terminal job never changes again.

use vstd::prelude::*;
use crate::bus::{
    ProgressBus, ProgressEvent, ProgressEventView, BusView, Delivery, bus_wf, spec_publish,
    spec_next_bus, spec_pending,
};
use crate::job::{
    Job, JobView, JobSpec, SubTask, SubTaskView, job_wf, spec_new_job, spec_count_subtasks,
    spec_all_subtasks_terminal, spec_progress_sum, spec_mean_progress, spec_first_pending,
    spec_join_errors, spec_cancel_pending,
};
use crate::status::{
    JobStatus, SubTaskStatus, JobKind, spec_is_terminal, spec_subtask_is_terminal, legal_step,
    spec_aggregate_status, aggregate_status,
};
use crate::text::push_str_chars;
use crate::trusted::chars_to_string;

verus! {

/// The mathematical value of the registry: the stored jobs and the bus.
pub ghost struct RegistryView {
    pub jobs: Seq<JobView>,
    pub bus: BusView,
}

/// The job registry.
pub struct JobRegistry {
    jobs: Vec<Job>,
    bus: ProgressBus,
}

impl View for JobRegistry {
    type V = RegistryView;

    closed spec fn view(&self) -> RegistryView {
        RegistryView {
            jobs: Seq::new(self.jobs@.len(), |i: int| self.jobs@[i]@),
            bus: self.bus@,
        }
    }
}

/// Well-formedness of the registry: every job is well-formed and stored
/// under its own identifier, and the bus is well-formed.
pub open spec fn registry_wf(r: RegistryView) -> bool {
    &&& bus_wf(r.bus)
    &&& forall|i: int| 0 <= i < r.jobs.len() ==> job_wf(#[trigger] r.jobs[i]) && r.jobs[i].id == i
}

/// What one registry operation may do to one stored job.
pub open spec fn job_step(x: JobView, y: JobView) -> bool {
    &&& y.id == x.id
    &&& legal_step(x.status, y.status)
    &&& (x.cancel_requested ==> y.cancel_requested)
    &&& (x.started_at is Some ==> y.started_at == x.started_at)
    &&& (x.completed_at is Some ==> y.completed_at == x.completed_at)
    &&& (spec_is_terminal(x.status) ==> y == x)
}

/// What one registry operation may do to the whole registry: jobs are never
/// removed, and every stored job takes one legal step (staying put counts).
///
/// Every mutating registry operation promises this, so no sequence of
/// registry snapshots can show an illegal status transition.
pub open spec fn registry_step(a: RegistryView, b: RegistryView) -> bool {
    &&& a.jobs.len() <= b.jobs.len()
    &&& forall|i: int| 0 <= i < a.jobs.len() ==> job_step(#[trigger] a.jobs[i], b.jobs[i])
}

/// The progress event that describes job `j` at time `now`.
pub open spec fn spec_event_of(j: JobView, msg: Seq<char>, now: u64) -> ProgressEventView {
    ProgressEventView {
        job_id: j.id,
        status: j.status,
        progress_percent: j.progress_percent,
        message: msg,
        emitted_at: now,
    }
}

/// The registry state after a cancellation request for `id`: the flag is
/// set on an existing, non-terminal job; anything else is a no-op.
pub open spec fn spec_request_cancel_state(r: RegistryView, id: int) -> RegistryView {
    if 0 <= id < r.jobs.len() && !spec_is_terminal(r.jobs[id].status) {
        RegistryView {
            jobs: r.jobs.update(id, JobView { cancel_requested: true, ..r.jobs[id] }),
            bus: r.bus,
        }
    } else {
        r
    }
}

/// What a cancellation request for `id` returns: whether the job exists and
/// was not already terminal.
pub open spec fn spec_request_cancel_result(r: RegistryView, id: int) -> bool {
    0 <= id < r.jobs.len() && !spec_is_terminal(r.jobs[id].status)
}

impl JobRegistry {
    /// An empty registry.
    pub fn new() -> (r: JobRegistry)
        ensures
            registry_wf(r@),
            r@.jobs.len() == 0,
            r@.bus.history.len() == 0,
            r@.bus.subs.len() == 0,
    {
        let r = JobRegistry { jobs: Vec::new(), bus: ProgressBus::new() };
        proof {
            assert(r@.jobs =~= Seq::<JobView>::empty());
        }
        r
    }

    /// How many jobs the registry holds.
    pub fn job_count(&self) -> (n: usize)
        ensures
            n == self@.jobs.len(),
    {
        self.jobs.len()
    }

    /// Create a job from a submission: it is stored `Pending` under a fresh
    /// identifier, and its creation is announced on the bus.
    pub fn submit_job(&mut self, submission: JobSpec, now: u64) -> (id: u64)
        requires
            registry_wf(old(self)@),
        ensures
            registry_wf(final(self)@),
            registry_step(old(self)@, final(self)@),
            id == old(self)@.jobs.len(),
            final(self)@.jobs == old(self)@.jobs.push(spec_new_job(id, submission@, now)),
            final(self)@.bus == spec_publish(
                old(self)@.bus,
                spec_event_of(spec_new_job(id, submission@, now), "queued"@, now),
            ),
    {
        let id = self.jobs.len() as u64;
        let max_concurrent = if submission.max_concurrent >= 1 {
            submission.max_concurrent
        } else {
            1
        };
        let job = Job {
            id,
            kind: submission.kind,
            target: submission.target,
            format: submission.format,
            quality_hint: submission.quality_hint,
            status: JobStatus::Pending,
            progress_percent: 0,
            created_at: now,
            started_at: None,
            completed_at: None,
            outputs: Vec::new(),
            last_error: None,
            cancel_requested: false,
            subtasks: Vec::new(),
            max_concurrent,
        };
        let event = ProgressEvent {
            job_id: id,
            status: JobStatus::Pending,
            progress_percent: 0,
            message: String::from_str("queued"),
            emitted_at: now,
        };
        self.jobs.push(job);
        self.bus.publish(event);
        proof {
            let jv = spec_new_job(id, submission@, now);
            let pv = self@.jobs[old(self)@.jobs.len() as int];
            assert(pv.outputs =~= jv.outputs);
            assert(pv.subtasks =~= jv.subtasks);
            assert(pv == jv);
            assert(self@.jobs =~= old(self)@.jobs.push(jv));
        }
        id
    }

    /// Look a job up by its identifier; an unknown identifier is answered
    /// with nothing, never an error.
    pub fn get_job(&self, id: u64) -> (r: Option<&Job>)
        ensures
            match r {
                Some(j) => id < self@.jobs.len() && j@ == self@.jobs[id as int],
                None => id >= self@.jobs.len(),
            },
    {
        if id < self.jobs.len() as u64 {
            Some(&self.jobs[id as usize])
        } else {
            None
        }
    }

    /// All stored jobs, in creation order.
    pub fn list_jobs(&self) -> (r: &Vec<Job>)
        ensures
            r@.len() == self@.jobs.len(),
            forall|i: int| 0 <= i < r@.len() ==> (#[trigger] r@[i])@ == self@.jobs[i],
    {
        &self.jobs
    }

    /// Request cancellation of a job.  The flag is monotone: it is set on an
    /// existing non-terminal job and the call answers `true`; a terminal or
    /// unknown job is left alone and the call answers `false`.  No event is
    /// published, since neither status nor progress changes.
    pub fn request_cancel(&mut self, id: u64) -> (r: bool)
        requires
            registry_wf(old(self)@),
        ensures
            registry_wf(final(self)@),
            registry_step(old(self)@, final(self)@),
            final(self)@ == spec_request_cancel_state(old(self)@, id as int),
            r == spec_request_cancel_result(old(self)@, id as int),
    {
        if id >= self.jobs.len() as u64 {
            proof {
                assert(self@ =~= spec_request_cancel_state(old(self)@, id as int)) by {
                    assert(self@.jobs =~= old(self)@.jobs);
                }
            }
            return false;
        }
        let idx = id as usize;
        if self.jobs[idx].status.is_terminal() {
            proof {
                assert(self@.jobs =~= old(self)@.jobs);
            }
            return false;
        }
        self.jobs[idx].cancel_requested = true;
        proof {
            assert(self@.jobs =~= spec_request_cancel_state(old(self)@, id as int).jobs);
        }
        true
    }

    /// Subscribe to progress events with the given buffer capacity.
    pub fn subscribe_progress(&mut self, capacity: usize) -> (r: usize)
        requires
            registry_wf(old(self)@),
            capacity >= 1,
        ensures
            registry_wf(final(self)@),
            registry_step(old(self)@, final(self)@),
            final(self)@.jobs == old(self)@.jobs,
            r == old(self)@.bus.subs.len(),
            final(self)@.bus.history == old(self)@.bus.history,
            final(self)@.bus.subs == old(self)@.bus.subs.push(
                crate::bus::SubscriberView {
                    pos: old(self)@.bus.history.len() as int,
                    capacity: capacity as int,
                },
            ),
    {
        let r = self.bus.subscribe(capacity);
        proof {
            assert(self@.jobs =~= old(self)@.jobs);
        }
        r
    }

    /// Take the next delivery for a subscriber, as the bus defines it.
    pub fn next_event(&mut self, sub: usize) -> (r: Option<Delivery>)
        requires
            registry_wf(old(self)@),
            sub < old(self)@.bus.subs.len(),
        ensures
            registry_wf(final(self)@),
            registry_step(old(self)@, final(self)@),
            final(self)@.jobs == old(self)@.jobs,
            final(self)@.bus == spec_next_bus(old(self)@.bus, sub as int),
            ({
                let pos = old(self)@.bus.subs[sub as int].pos;
                let cap = old(self)@.bus.subs[sub as int].capacity;
                let pending = spec_pending(old(self)@.bus, sub as int);
                if pending > cap {
                    r matches Some(d) && d matches Delivery::Lagged(n) && n == pending - cap
                } else if pending > 0 {
                    r matches Some(d) && d matches Delivery::Event(e) && e@ == old(
                        self,
                    )@.bus.history[pos]
                } else {
                    r is None
                }
            }),
    {
        let r = self.bus.next_delivery(sub);
        proof {
            assert(self@.jobs =~= old(self)@.jobs);
        }
        r
    }
}

/// What starting a pending job did.
#[derive(Clone, Copy, Debug, PartialEq, Eq, Structural)]
pub enum StartOutcome {
    /// The job moved `Pending -> Running`.
    Started,
    /// Cancellation had been requested first: the job moved
    /// `Pending -> Cancelled` and no work should be attempted.
    CancelledBeforeStart,
    /// The job was unknown or not pending; nothing changed.
    Unchanged,
}

/// What starting job `id` does.
pub open spec fn spec_start_outcome(r: RegistryView, id: int) -> StartOutcome {
    if !(0 <= id < r.jobs.len()) {
        StartOutcome::Unchanged
    } else if r.jobs[id].status != JobStatus::Pending {
        StartOutcome::Unchanged
    } else if r.jobs[id].cancel_requested {
        StartOutcome::CancelledBeforeStart
    } else {
        StartOutcome::Started
    }
}

/// The registry after starting job `id`.
pub open spec fn spec_start_state(r: RegistryView, id: int, now: u64) -> RegistryView {
    if spec_start_outcome(r, id) == StartOutcome::CancelledBeforeStart {
        let j2 = JobView {
            status: JobStatus::Cancelled,
            completed_at: Some(now),
            ..r.jobs[id]
        };
        RegistryView {
            jobs: r.jobs.update(id, j2),
            bus: spec_publish(r.bus, spec_event_of(j2, "cancelled"@, now)),
        }
    } else if spec_start_outcome(r, id) == StartOutcome::Started {
        let j2 = JobView { status: JobStatus::Running, started_at: Some(now), ..r.jobs[id] };
        RegistryView {
            jobs: r.jobs.update(id, j2),
            bus: spec_publish(r.bus, spec_event_of(j2, "started"@, now)),
        }
    } else {
        r
    }
}

/// The registry after job `id` completes with one produced artifact.
pub open spec fn spec_complete_state(
    r: RegistryView,
    id: int,
    output: Seq<char>,
    now: u64,
) -> RegistryView {
    if 0 <= id < r.jobs.len() && r.jobs[id].status == JobStatus::Running {
        let j2 = JobView {
            status: JobStatus::Completed,
            progress_percent: 100,
            completed_at: Some(now),
            outputs: r.jobs[id].outputs.push(output),
            ..r.jobs[id]
        };
        RegistryView {
            jobs: r.jobs.update(id, j2),
            bus: spec_publish(r.bus, spec_event_of(j2, "completed"@, now)),
        }
    } else {
        r
    }
}

/// The registry after job `id` fails with an aggregated error.
pub open spec fn spec_fail_state(
    r: RegistryView,
    id: int,
    error: Seq<char>,
    now: u64,
) -> RegistryView {
    if 0 <= id < r.jobs.len() && r.jobs[id].status == JobStatus::Running {
        let j2 = JobView {
            status: JobStatus::Failed,
            completed_at: Some(now),
            last_error: Some(error),
            ..r.jobs[id]
        };
        RegistryView {
            jobs: r.jobs.update(id, j2),
            bus: spec_publish(r.bus, spec_event_of(j2, "failed"@, now)),
        }
    } else {
        r
    }
}

/// The registry after running job `id` is cancelled.
pub open spec fn spec_cancelled_state(r: RegistryView, id: int, now: u64) -> RegistryView {
    if 0 <= id < r.jobs.len() && r.jobs[id].status == JobStatus::Running {
        let j2 = JobView {
            status: JobStatus::Cancelled,
            completed_at: Some(now),
            ..r.jobs[id]
        };
        RegistryView {
            jobs: r.jobs.update(id, j2),
            bus: spec_publish(r.bus, spec_event_of(j2, "cancelled"@, now)),
        }
    } else {
        r
    }
}

/// The registry after a progress report for job `id`: while the job runs,
/// progress only ever climbs (reports are clamped to 100 and stale reports
/// are ignored), and each accepted report is published.
pub open spec fn spec_progress_state(
    r: RegistryView,
    id: int,
    p: u32,
    msg: Seq<char>,
    now: u64,
) -> RegistryView {
    if 0 <= id < r.jobs.len() && r.jobs[id].status == JobStatus::Running {
        let clamped: u32 = if p > 100 {
            100
        } else {
            p
        };
        if clamped > r.jobs[id].progress_percent {
            let j2 = JobView { progress_percent: clamped, ..r.jobs[id] };
            RegistryView {
                jobs: r.jobs.update(id, j2),
                bus: spec_publish(r.bus, spec_event_of(j2, msg, now)),
            }
        } else {
            r
        }
    } else {
        r
    }
}

impl JobRegistry {
    /// Begin execution of a pending job.  If its cancellation was requested
    /// first it moves straight to `Cancelled` and no strategy may ever be
    /// attempted for it; otherwise it moves to `Running`.  Either change is
    /// published.
    pub fn start_running(&mut self, id: u64, now: u64) -> (r: StartOutcome)
        requires
            registry_wf(old(self)@),
        ensures
            registry_wf(final(self)@),
            registry_step(old(self)@, final(self)@),
            r == spec_start_outcome(old(self)@, id as int),
            final(self)@ == spec_start_state(old(self)@, id as int, now),
    {
        if id >= self.jobs.len() as u64 {
            proof {
                assert(self@.jobs =~= old(self)@.jobs);
            }
            return StartOutcome::Unchanged;
        }
        let idx = id as usize;
        match self.jobs[idx].status {
            JobStatus::Pending => {},
            _ => {
                proof {
                    assert(self@.jobs =~= old(self)@.jobs);
                }
                return StartOutcome::Unchanged;
            },
        }
        if self.jobs[idx].cancel_requested {
            self.jobs[idx].status = JobStatus::Cancelled;
            self.jobs[idx].completed_at = Some(now);
            let ev = ProgressEvent {
                job_id: id,
                status: JobStatus::Cancelled,
                progress_percent: self.jobs[idx].progress_percent,
                message: String::from_str("cancelled"),
                emitted_at: now,
            };
            self.bus.publish(ev);
            proof {
                let ghost target = spec_start_state(old(self)@, id as int, now);
                assert(self@.jobs[id as int] == target.jobs[id as int]);
                assert(self@.jobs =~= target.jobs);
            }
            StartOutcome::CancelledBeforeStart
        } else {
            self.jobs[idx].status = JobStatus::Running;
            self.jobs[idx].started_at = Some(now);
            let ev = ProgressEvent {
                job_id: id,
                status: JobStatus::Running,
                progress_percent: self.jobs[idx].progress_percent,
                message: String::from_str("started"),
                emitted_at: now,
            };
            self.bus.publish(ev);
            proof {
                let ghost target = spec_start_state(old(self)@, id as int, now);
                assert(self@.jobs[id as int] == target.jobs[id as int]);
                assert(self@.jobs =~= target.jobs);
            }
            StartOutcome::Started
        }
    }

    /// Record a running job's success: it completes with the produced
    /// artifact appended, full progress, and a published event.  Any other
    /// state is left alone.
    pub fn mark_completed(&mut self, id: u64, output: String, now: u64)
        requires
            registry_wf(old(self)@),
        ensures
            registry_wf(final(self)@),
            registry_step(old(self)@, final(self)@),
            final(self)@ == spec_complete_state(old(self)@, id as int, output@, now),
    {
        if id >= self.jobs.len() as u64 {
            proof {
                assert(self@.jobs =~= old(self)@.jobs);
            }
            return ;
        }
        let idx = id as usize;
        match self.jobs[idx].status {
            JobStatus::Running => {},
            _ => {
                proof {
                    assert(self@.jobs =~= old(self)@.jobs);
                }
                return ;
            },
        }
        self.jobs[idx].status = JobStatus::Completed;
        self.jobs[idx].progress_percent = 100;
        self.jobs[idx].completed_at = Some(now);
        self.jobs[idx].outputs.push(output);
        let ev = ProgressEvent {
            job_id: id,
            status: JobStatus::Completed,
            progress_percent: 100,
            message: String::from_str("completed"),
            emitted_at: now,
        };
        self.bus.publish(ev);
        proof {
            let ghost target = spec_complete_state(old(self)@, id as int, output@, now);
            assert(self@.jobs[id as int].outputs =~= target.jobs[id as int].outputs);
            assert(self@.jobs[id as int] == target.jobs[id as int]);
            assert(self@.jobs =~= target.jobs);
        }
    }

    /// Record a running job's aggregated failure: it fails with the given
    /// error and a published event.  Any other state is left alone.
    pub fn mark_failed(&mut self, id: u64, error: String, now: u64)
        requires
            registry_wf(old(self)@),
        ensures
            registry_wf(final(self)@),
            registry_step(old(self)@, final(self)@),
            final(self)@ == spec_fail_state(old(self)@, id as int, error@, now),
    {
        if id >= self.jobs.len() as u64 {
            proof {
                assert(self@.jobs =~= old(self)@.jobs);
            }
            return ;
        }
        let idx = id as usize;
        match self.jobs[idx].status {
            JobStatus::Running => {},
            _ => {
                proof {
                    assert(self@.jobs =~= old(self)@.jobs);
                }
                return ;
            },
        }
        self.jobs[idx].status = JobStatus::Failed;
        self.jobs[idx].completed_at = Some(now);
        self.jobs[idx].last_error = Some(error);
        let p = self.jobs[idx].progress_percent;
        let ev = ProgressEvent {
            job_id: id,
            status: JobStatus::Failed,
            progress_percent: p,
            message: String::from_str("failed"),
            emitted_at: now,
        };
        self.bus.publish(ev);
        proof {
            let ghost target = spec_fail_state(old(self)@, id as int, error@, now);
            assert(self@.jobs[id as int] == target.jobs[id as int]);
            assert(self@.jobs =~= target.jobs);
        }
    }

    /// Record a running job's cooperative cancellation, with a published
    /// event.  Any other state is left alone.
    pub fn mark_cancelled(&mut self, id: u64, now: u64)
        requires
            registry_wf(old(self)@),
        ensures
            registry_wf(final(self)@),
            registry_step(old(self)@, final(self)@),
            final(self)@ == spec_cancelled_state(old(self)@, id as int, now),
    {
        if id >= self.jobs.len() as u64 {
            proof {
                assert(self@.jobs =~= old(self)@.jobs);
            }
            return ;
        }
        let idx = id as usize;
        match self.jobs[idx].status {
            JobStatus::Running => {},
            _ => {
                proof {
                    assert(self@.jobs =~= old(self)@.jobs);
                }
                return ;
            },
        }
        self.jobs[idx].status = JobStatus::Cancelled;
        self.jobs[idx].completed_at = Some(now);
        let p = self.jobs[idx].progress_percent;
        let ev = ProgressEvent {
            job_id: id,
            status: JobStatus::Cancelled,
            progress_percent: p,
            message: String::from_str("cancelled"),
            emitted_at: now,
        };
        self.bus.publish(ev);
        proof {
            let ghost target = spec_cancelled_state(old(self)@, id as int, now);
            assert(self@.jobs[id as int] == target.jobs[id as int]);
            assert(self@.jobs =~= target.jobs);
        }
    }

    /// Report progress for a running job.  Reports above 100 are clamped;
    /// a report that does not increase the stored progress is ignored, so
    /// progress is monotone while the job runs.  Each accepted report is
    /// published with its message.
    pub fn update_progress(&mut self, id: u64, p: u32, message: String, now: u64)
        requires
            registry_wf(old(self)@),
        ensures
            registry_wf(final(self)@),
            registry_step(old(self)@, final(self)@),
            final(self)@ == spec_progress_state(old(self)@, id as int, p, message@, now),
    {
        if id >= self.jobs.len() as u64 {
            proof {
                assert(self@.jobs =~= old(self)@.jobs);
            }
            return ;
        }
        let idx = id as usize;
        match self.jobs[idx].status {
            JobStatus::Running => {},
            _ => {
                proof {
                    assert(self@.jobs =~= old(self)@.jobs);
                }
                return ;
            },
        }
        let clamped: u32 = if p > 100 {
            100
        } else {
            p
        };
        if clamped <= self.jobs[idx].progress_percent {
            proof {
                assert(self@.jobs =~= old(self)@.jobs);
            }
            return ;
        }
        self.jobs[idx].progress_percent = clamped;
        let ev = ProgressEvent {
            job_id: id,
            status: JobStatus::Running,
            progress_percent: clamped,
            message,
            emitted_at: now,
        };
        self.bus.publish(ev);
        proof {
            let ghost target = spec_progress_state(old(self)@, id as int, p, message@, now);
            assert(self@.jobs[id as int] == target.jobs[id as int]);
            assert(self@.jobs =~= target.jobs);
        }
    }
}

/// The terminal outcome of one sub-task's execution.
pub enum SubTaskOutcome {
    /// The member was fetched; the value is the artifact location.
    Success(String),
    /// Every strategy failed for this member; the value is the reason.
    Failure(String),
    /// The member's execution observed the parent's cancellation.
    Cancelled,
}

/// A sub-task sequence's progress values all lie within 0..=100.
pub open spec fn spec_subtask_progress_ok(ss: Seq<SubTaskView>) -> bool {
    forall|i: int| 0 <= i < ss.len() ==> (#[trigger] ss[i]).progress_percent <= 100
}

/// The progress sum of such a sequence is at most `100 * len`.
proof fn lemma_progress_sum_bound(ss: Seq<SubTaskView>)
    requires
        spec_subtask_progress_ok(ss),
    ensures
        0 <= spec_progress_sum(ss) <= 100 * ss.len(),
    decreases ss.len(),
{
    if ss.len() > 0 {
        assert(spec_subtask_progress_ok(ss.drop_last())) by {
            assert(forall|i: int|
                0 <= i < ss.len() - 1 ==> ss.drop_last()[i] == #[trigger] ss[i]);
        }
        lemma_progress_sum_bound(ss.drop_last());
    }
}

/// The mean of such progress values is itself within 0..=100.
proof fn lemma_mean_progress_bound(ss: Seq<SubTaskView>)
    requires
        spec_subtask_progress_ok(ss),
    ensures
        0 <= spec_mean_progress(ss) <= 100,
{
    if ss.len() > 0 {
        lemma_progress_sum_bound(ss);
        assert(spec_progress_sum(ss) / ss.len() as int <= 100) by (nonlinear_arith)
            requires
                0 <= spec_progress_sum(ss) <= 100 * ss.len(),
                ss.len() >= 1,
        {}
    }
}

/// Count the sub-tasks holding the given status.
fn count_status(v: &Vec<SubTask>, st: SubTaskStatus) -> (r: usize)
    ensures
        r == spec_count_subtasks(crate::job::subtask_views(v@), st),
{
    let ghost ss = crate::job::subtask_views(v@);
    let mut c: usize = 0;
    let mut i: usize = 0;
    while i < v.len()
        invariant
            i <= v@.len(),
            ss == crate::job::subtask_views(v@),
            c <= i,
            c == spec_count_subtasks(ss.subrange(0, i as int), st),
        decreases v@.len() - i,
    {
        proof {
            assert(ss.subrange(0, i as int + 1).drop_last() =~= ss.subrange(0, i as int));
        }
        let hit = match (v[i].status, st) {
            (SubTaskStatus::Pending, SubTaskStatus::Pending) => true,
            (SubTaskStatus::Running, SubTaskStatus::Running) => true,
            (SubTaskStatus::Completed, SubTaskStatus::Completed) => true,
            (SubTaskStatus::Failed, SubTaskStatus::Failed) => true,
            (SubTaskStatus::Cancelled, SubTaskStatus::Cancelled) => true,
            _ => false,
        };
        if hit {
            c = c + 1;
        }
        i = i + 1;
    }
    proof {
        assert(ss.subrange(0, v@.len() as int) =~= ss);
    }
    c
}

/// The position of the first pending sub-task, if any.
fn first_pending_index(v: &Vec<SubTask>) -> (r: Option<usize>)
    ensures
        match r {
            Some(i) => i < v@.len() && spec_first_pending(crate::job::subtask_views(v@), 0)
                == Some(i as int),
            None => spec_first_pending(crate::job::subtask_views(v@), 0) is None,
        },
{
    let ghost ss = crate::job::subtask_views(v@);
    let mut i: usize = 0;
    while i < v.len()
        invariant
            i <= v@.len(),
            ss == crate::job::subtask_views(v@),
            spec_first_pending(ss, 0) == spec_first_pending(ss, i as nat),
        decreases v@.len() - i,
    {
        let hit = match v[i].status {
            SubTaskStatus::Pending => true,
            _ => false,
        };
        if hit {
            return Some(i);
        }
        i = i + 1;
    }
    None
}

/// Whether every sub-task has settled.
fn all_terminal(v: &Vec<SubTask>) -> (r: bool)
    ensures
        r == spec_all_subtasks_terminal(crate::job::subtask_views(v@)),
{
    let ghost ss = crate::job::subtask_views(v@);
    let mut i: usize = 0;
    while i < v.len()
        invariant
            i <= v@.len(),
            ss == crate::job::subtask_views(v@),
            forall|q: int|
                0 <= q < i ==> spec_subtask_is_terminal((#[trigger] ss[q]).status),
        decreases v@.len() - i,
    {
        if !v[i].status.is_terminal() {
            proof {
                assert(ss[i as int] == v@[i as int]@);
            }
            return false;
        }
        i = i + 1;
    }
    true
}

/// The sum of the sub-tasks' progress values.
fn sum_progress(v: &Vec<SubTask>) -> (r: u128)
    requires
        spec_subtask_progress_ok(crate::job::subtask_views(v@)),
    ensures
        r == spec_progress_sum(crate::job::subtask_views(v@)),
{
    let ghost ss = crate::job::subtask_views(v@);
    proof {
        lemma_progress_sum_bound(ss);
    }
    let mut s: u128 = 0;
    let mut i: usize = 0;
    while i < v.len()
        invariant
            i <= v@.len(),
            ss == crate::job::subtask_views(v@),
            spec_subtask_progress_ok(ss),
            s == spec_progress_sum(ss.subrange(0, i as int)),
        decreases v@.len() - i,
    {
        proof {
            assert(ss.subrange(0, i as int + 1).drop_last() =~= ss.subrange(0, i as int));
            assert(spec_subtask_progress_ok(ss.subrange(0, i as int))) by {
                assert(forall|q: int|
                    0 <= q < i ==> ss.subrange(0, i as int)[q] == #[trigger] ss[q]);
            }
            lemma_progress_sum_bound(ss.subrange(0, i as int));
        }
        s = s + (v[i].progress_percent as u128);
        i = i + 1;
    }
    proof {
        assert(ss.subrange(0, v@.len() as int) =~= ss);
    }
    s
}

/// The recorded sub-task errors, one line per recorded error, in order.
fn join_errors(v: &Vec<SubTask>) -> (r: String)
    ensures
        r@ == spec_join_errors(crate::job::subtask_views(v@)),
{
    let ghost ss = crate::job::subtask_views(v@);
    let mut out: Vec<char> = Vec::new();
    let mut i: usize = 0;
    while i < v.len()
        invariant
            i <= v@.len(),
            ss == crate::job::subtask_views(v@),
            out@ == spec_join_errors(ss.subrange(0, i as int)),
        decreases v@.len() - i,
    {
        proof {
            assert(ss.subrange(0, i as int + 1).drop_last() =~= ss.subrange(0, i as int));
        }
        match &v[i].error {
            Some(e) => {
                push_str_chars(&mut out, e.as_str());
                out.push('\n');
            },
            None => {},
        }
        i = i + 1;
        proof {
            assert(out@ =~= spec_join_errors(ss.subrange(0, i as int)));
        }
    }
    proof {
        assert(ss.subrange(0, v@.len() as int) =~= ss);
    }
    chars_to_string(&out)
}

/// Whether a running collection job may settle: either its cancellation was
/// requested and no sub-task is still in flight, or every sub-task has
/// settled.
pub open spec fn spec_can_settle(j: JobView) -> bool {
    j.status == JobStatus::Running && ((j.cancel_requested && spec_count_subtasks(
        j.subtasks,
        SubTaskStatus::Running,
    ) == 0) || spec_all_subtasks_terminal(j.subtasks))
}

/// The settled form of a collection job.  A requested cancellation wins:
/// still-pending sub-tasks are marked cancelled and the job ends
/// `Cancelled` no matter how the finished sub-tasks fared.  Otherwise the
/// sub-task outcomes are aggregated: all successes give `Completed`, all
/// failures give `Failed` with the joined error lines, and a mix gives
/// `PartiallyCompleted`.
pub open spec fn spec_settle_job(j: JobView, now: u64) -> JobView {
    if j.cancel_requested && spec_count_subtasks(j.subtasks, SubTaskStatus::Running) == 0 {
        JobView {
            status: JobStatus::Cancelled,
            completed_at: Some(now),
            subtasks: spec_cancel_pending(j.subtasks),
            ..j
        }
    } else {
        let ns = spec_count_subtasks(j.subtasks, SubTaskStatus::Completed);
        let nf = spec_count_subtasks(j.subtasks, SubTaskStatus::Failed);
        JobView {
            status: spec_aggregate_status(ns as nat, nf as nat, false),
            completed_at: Some(now),
            last_error: if nf > 0 && ns == 0 {
                Some(spec_join_errors(j.subtasks))
            } else {
                j.last_error
            },
            ..j
        }
    }
}

/// The registry after `count` fresh sub-tasks are attached to a running,
/// still-empty collection job.
pub open spec fn spec_expand_state(r: RegistryView, id: int, count: int) -> RegistryView {
    if 0 <= id < r.jobs.len() && r.jobs[id].status == JobStatus::Running && r.jobs[id].kind
        == JobKind::Collection && r.jobs[id].subtasks.len() == 0 {
        let j2 = JobView {
            subtasks: Seq::new(
                count as nat,
                |i: int|
                    SubTaskView {
                        index: i,
                        status: SubTaskStatus::Pending,
                        progress_percent: 0,
                        output: None,
                        error: None,
                    },
            ),
            ..r.jobs[id]
        };
        RegistryView { jobs: r.jobs.update(id, j2), bus: r.bus }
    } else {
        r
    }
}

/// Whether a dispatch is possible for job `id`: it runs, its cancellation
/// has not been requested, fewer sub-tasks run than the concurrency bound
/// allows, and a pending sub-task exists.
pub open spec fn spec_dispatch_result(r: RegistryView, id: int) -> Option<int> {
    if 0 <= id < r.jobs.len() && r.jobs[id].status == JobStatus::Running
        && !r.jobs[id].cancel_requested && spec_count_subtasks(
        r.jobs[id].subtasks,
        SubTaskStatus::Running,
    ) < r.jobs[id].max_concurrent {
        spec_first_pending(r.jobs[id].subtasks, 0)
    } else {
        None
    }
}

/// The registry after a dispatch attempt for job `id`: the chosen sub-task
/// is marked running; nothing else changes.
pub open spec fn spec_dispatch_state(r: RegistryView, id: int) -> RegistryView {
    match spec_dispatch_result(r, id) {
        Some(t) => {
            let j = r.jobs[id];
            let j2 = JobView {
                subtasks: j.subtasks.update(
                    t,
                    SubTaskView { status: SubTaskStatus::Running, ..j.subtasks[t] },
                ),
                ..j
            };
            RegistryView { jobs: r.jobs.update(id, j2), bus: r.bus }
        },
        None => r,
    }
}

/// Whether `finish_subtask` applies: the job runs and the named sub-task is
/// in flight.
pub open spec fn spec_finish_applicable(r: RegistryView, id: int, idx: int) -> bool {
    0 <= id < r.jobs.len() && r.jobs[id].status == JobStatus::Running && 0 <= idx < r.jobs[
        id
    ].subtasks.len() && r.jobs[id].subtasks[idx].status == SubTaskStatus::Running
}

/// A sub-task after its outcome is recorded: success and failure both mean
/// it finished its work, so its progress reads 100; a cooperative
/// cancellation keeps whatever progress it had.
pub open spec fn spec_apply_outcome(t: SubTaskView, oc: SubTaskOutcome) -> SubTaskView {
    match oc {
        SubTaskOutcome::Success(p) => SubTaskView {
            status: SubTaskStatus::Completed,
            progress_percent: 100,
            output: Some(p@),
            ..t
        },
        SubTaskOutcome::Failure(e) => SubTaskView {
            status: SubTaskStatus::Failed,
            progress_percent: 100,
            error: Some(e@),
            ..t
        },
        SubTaskOutcome::Cancelled => SubTaskView { status: SubTaskStatus::Cancelled, ..t },
    }
}

/// The registry after sub-task `idx` of job `id` settles with `oc`: the
/// outcome is recorded, a successful artifact joins the parent's outputs,
/// the parent's progress is recomputed as the mean of its sub-tasks'
/// progress, the parent settles if nothing is left in flight, and the new
/// state is published.
pub open spec fn spec_finish_state(
    r: RegistryView,
    id: int,
    idx: int,
    oc: SubTaskOutcome,
    now: u64,
) -> RegistryView {
    if !spec_finish_applicable(r, id, idx) {
        r
    } else {
        let j = r.jobs[id];
        let ss2 = j.subtasks.update(idx, spec_apply_outcome(j.subtasks[idx], oc));
        let outs2 = j.outputs + (match oc {
            SubTaskOutcome::Success(p) => seq![p@],
            _ => Seq::<Seq<char>>::empty(),
        });
        let j1 = JobView {
            subtasks: ss2,
            outputs: outs2,
            progress_percent: spec_mean_progress(ss2) as u32,
            ..j
        };
        let j2 = if spec_can_settle(j1) {
            spec_settle_job(j1, now)
        } else {
            j1
        };
        RegistryView {
            jobs: r.jobs.update(id, j2),
            bus: spec_publish(r.bus, spec_event_of(j2, "subtask finished"@, now)),
        }
    }
}

/// The registry after an explicit settle attempt on job `id`: if the job
/// can settle, it does, and the settled state is published.
pub open spec fn spec_settle_state(r: RegistryView, id: int, now: u64) -> RegistryView {
    if 0 <= id < r.jobs.len() && spec_can_settle(r.jobs[id]) {
        let j2 = spec_settle_job(r.jobs[id], now);
        RegistryView {
            jobs: r.jobs.update(id, j2),
            bus: spec_publish(r.bus, spec_event_of(j2, "finished"@, now)),
        }
    } else {
        r
    }
}

impl JobRegistry {
    /// Attach `count` fresh pending sub-tasks to a running, still-empty
    /// collection job.  Neither status nor progress changes, so nothing is
    /// published.
    pub fn expand_subtasks(&mut self, id: u64, count: usize)
        requires
            registry_wf(old(self)@),
        ensures
            registry_wf(final(self)@),
            registry_step(old(self)@, final(self)@),
            final(self)@ == spec_expand_state(old(self)@, id as int, count as int),
    {
        if id >= self.jobs.len() as u64 {
            proof {
                assert(self@.jobs =~= old(self)@.jobs);
            }
            return ;
        }
        let idx = id as usize;
        let applicable = match (self.jobs[idx].status, self.jobs[idx].kind) {
            (JobStatus::Running, JobKind::Collection) => self.jobs[idx].subtasks.len() == 0,
            _ => false,
        };
        if !applicable {
            proof {
                assert(self@.jobs =~= old(self)@.jobs);
            }
            return ;
        }
        let mut sts: Vec<SubTask> = Vec::new();
        let mut k: usize = 0;
        while k < count
            invariant
                k <= count,
                sts@.len() == k,
                forall|q: int|
                    0 <= q < k ==> (#[trigger] sts@[q])@ == (SubTaskView {
                        index: q,
                        status: SubTaskStatus::Pending,
                        progress_percent: 0,
                        output: None,
                        error: None,
                    }),
            decreases count - k,
        {
            sts.push(
                SubTask {
                    index: k,
                    status: SubTaskStatus::Pending,
                    progress_percent: 0,
                    output: None,
                    error: None,
                },
            );
            k = k + 1;
        }
        self.jobs[idx].subtasks = sts;
        proof {
            let ghost target = spec_expand_state(old(self)@, id as int, count as int);
            assert(self@.jobs[id as int].subtasks =~= target.jobs[id as int].subtasks);
            assert(self@.jobs[id as int].outputs =~= target.jobs[id as int].outputs);
            assert(self@.jobs[id as int] == target.jobs[id as int]);
            assert(self@.jobs =~= target.jobs);
        }
    }

    /// Hand out the next sub-task of job `id` for execution, honouring the
    /// cancellation flag and the concurrency bound: nothing is dispatched
    /// once cancellation is requested, nor while `max_concurrent` sub-tasks
    /// are already in flight.  The chosen sub-task is the first pending one
    /// and is marked running.
    pub fn dispatch_next_subtask(&mut self, id: u64) -> (r: Option<usize>)
        requires
            registry_wf(old(self)@),
        ensures
            registry_wf(final(self)@),
            registry_step(old(self)@, final(self)@),
            final(self)@ == spec_dispatch_state(old(self)@, id as int),
            match r {
                Some(t) => spec_dispatch_result(old(self)@, id as int) == Some(t as int),
                None => spec_dispatch_result(old(self)@, id as int) is None,
            },
    {
        if id >= self.jobs.len() as u64 {
            proof {
                assert(self@.jobs =~= old(self)@.jobs);
            }
            return None;
        }
        let idx = id as usize;
        let running_job = match self.jobs[idx].status {
            JobStatus::Running => true,
            _ => false,
        };
        if !running_job || self.jobs[idx].cancel_requested {
            proof {
                assert(self@.jobs =~= old(self)@.jobs);
            }
            return None;
        }
        proof {
            assert(self@.jobs[id as int].subtasks =~= crate::job::subtask_views(
                self.jobs@[id as int].subtasks@,
            ));
        }
        let in_flight = count_status(&self.jobs[idx].subtasks, SubTaskStatus::Running);
        if in_flight >= self.jobs[idx].max_concurrent {
            proof {
                assert(self@.jobs =~= old(self)@.jobs);
            }
            return None;
        }
        match first_pending_index(&self.jobs[idx].subtasks) {
            Some(t) => {
                self.jobs[idx].subtasks[t].status = SubTaskStatus::Running;
                proof {
                    let ghost target = spec_dispatch_state(old(self)@, id as int);
                    assert(self@.jobs[id as int].subtasks =~= target.jobs[id as int].subtasks);
                    assert(self@.jobs[id as int].outputs =~= target.jobs[id as int].outputs);
                    assert(self@.jobs[id as int] == target.jobs[id as int]);
                    assert(self@.jobs =~= target.jobs);
                }
                Some(t)
            },
            None => {
                proof {
                    assert(self@.jobs =~= old(self)@.jobs);
                }
                None
            },
        }
    }

    /// Apply `spec_settle_job` to the stored job at `idx`.
    fn apply_settle(&mut self, idx: usize, now: u64)
        requires
            registry_wf(old(self)@),
            idx < old(self)@.jobs.len(),
            spec_can_settle(old(self)@.jobs[idx as int]),
        ensures
            registry_wf(final(self)@),
            registry_step(old(self)@, final(self)@),
            final(self)@.jobs == old(self)@.jobs.update(
                idx as int,
                spec_settle_job(old(self)@.jobs[idx as int], now),
            ),
            final(self)@.bus == old(self)@.bus,
    {
        let cancel = self.jobs[idx].cancel_requested;
        let in_flight = if cancel {
            proof {
                assert(self@.jobs[idx as int].subtasks =~= crate::job::subtask_views(
                    self.jobs@[idx as int].subtasks@,
                ));
            }
            count_status(&self.jobs[idx].subtasks, SubTaskStatus::Running)
        } else {
            1
        };
        if cancel && in_flight == 0 {
            let ghost ss = old(self)@.jobs[idx as int].subtasks;
            proof {
                assert(self@.jobs[idx as int].subtasks =~= crate::job::subtask_views(
                    self.jobs@[idx as int].subtasks@,
                ));
            }
            let n = self.jobs[idx].subtasks.len();
            let mut fresh: Vec<SubTask> = Vec::new();
            let mut k: usize = 0;
            while k < n
                invariant
                    k <= n,
                    n == self.jobs@[idx as int].subtasks@.len(),
                    idx < self.jobs@.len(),
                    ss == crate::job::subtask_views(self.jobs@[idx as int].subtasks@),
                    fresh@.len() == k,
                    forall|q: int|
                        0 <= q < k ==> (#[trigger] fresh@[q])@ == spec_cancel_pending(ss)[q],
                decreases n - k,
            {
                let t = &self.jobs[idx].subtasks[k];
                let status2 = match t.status {
                    SubTaskStatus::Pending => SubTaskStatus::Cancelled,
                    s => s,
                };
                let copied = SubTask {
                    index: t.index,
                    status: status2,
                    progress_percent: t.progress_percent,
                    output: match &t.output {
                        Some(s) => Some(s.clone()),
                        None => None,
                    },
                    error: match &t.error {
                        Some(s) => Some(s.clone()),
                        None => None,
                    },
                };
                fresh.push(copied);
                k = k + 1;
            }
            self.jobs[idx].subtasks = fresh;
            self.jobs[idx].status = JobStatus::Cancelled;
            self.jobs[idx].completed_at = Some(now);
            proof {
                let ghost target = old(self)@.jobs.update(
                    idx as int,
                    spec_settle_job(old(self)@.jobs[idx as int], now),
                );
                assert(self@.jobs[idx as int].subtasks =~= target[idx as int].subtasks);
                assert(self@.jobs[idx as int].outputs =~= target[idx as int].outputs);
                assert(self@.jobs[idx as int] == target[idx as int]);
                assert(self@.jobs =~= target);
            }
        } else {
            proof {
                assert(self@.jobs[idx as int].subtasks =~= crate::job::subtask_views(
                    self.jobs@[idx as int].subtasks@,
                ));
            }
            let ns = count_status(&self.jobs[idx].subtasks, SubTaskStatus::Completed);
            let nf = count_status(&self.jobs[idx].subtasks, SubTaskStatus::Failed);
            let st = aggregate_status(ns, nf, false);
            if nf > 0 && ns == 0 {
                let err = join_errors(&self.jobs[idx].subtasks);
                self.jobs[idx].last_error = Some(err);
            }
            self.jobs[idx].status = st;
            self.jobs[idx].completed_at = Some(now);
            proof {
                let ghost target = old(self)@.jobs.update(
                    idx as int,
                    spec_settle_job(old(self)@.jobs[idx as int], now),
                );
                assert(self@.jobs[idx as int].subtasks =~= target[idx as int].subtasks);
                assert(self@.jobs[idx as int].outputs =~= target[idx as int].outputs);
                assert(self@.jobs[idx as int] == target[idx as int]);
                assert(self@.jobs =~= target);
            }
        }
    }

    /// Settle a running collection job whose sub-tasks no longer move: used
    /// when every sub-task has settled (vacuously, when a collection has no
    /// members at all) or when cancellation was requested and nothing is in
    /// flight.  The settled state is published.
    pub fn settle_collection(&mut self, id: u64, now: u64)
        requires
            registry_wf(old(self)@),
        ensures
            registry_wf(final(self)@),
            registry_step(old(self)@, final(self)@),
            final(self)@ == spec_settle_state(old(self)@, id as int, now),
    {
        if id >= self.jobs.len() as u64 {
            proof {
                assert(self@.jobs =~= old(self)@.jobs);
            }
            return ;
        }
        let idx = id as usize;
        let running_job = match self.jobs[idx].status {
            JobStatus::Running => true,
            _ => false,
        };
        if !running_job {
            proof {
                assert(self@.jobs =~= old(self)@.jobs);
            }
            return ;
        }
        proof {
            assert(self@.jobs[id as int].subtasks =~= crate::job::subtask_views(
                self.jobs@[id as int].subtasks@,
            ));
        }
        let cancel = self.jobs[idx].cancel_requested;
        let in_flight = count_status(&self.jobs[idx].subtasks, SubTaskStatus::Running);
        let finished = all_terminal(&self.jobs[idx].subtasks);
        if !((cancel && in_flight == 0) || finished) {
            proof {
                assert(self@.jobs =~= old(self)@.jobs);
            }
            return ;
        }
        self.apply_settle(idx, now);
        let p = self.jobs[idx].progress_percent;
        let st = self.jobs[idx].status;
        let ev = ProgressEvent {
            job_id: id,
            status: st,
            progress_percent: p,
            message: String::from_str("finished"),
            emitted_at: now,
        };
        self.bus.publish(ev);
        proof {
            let ghost target = spec_settle_state(old(self)@, id as int, now);
            assert(self@.jobs =~= target.jobs);
        }
    }

    /// Record the terminal outcome of one in-flight sub-task: the outcome
    /// is stored, a successful artifact joins the parent's outputs, the
    /// parent's progress becomes the mean of its sub-tasks' progress, the
    /// parent settles once nothing is left in flight, and the new state is
    /// published.
    pub fn finish_subtask(&mut self, id: u64, idx: usize, oc: SubTaskOutcome, now: u64)
        requires
            registry_wf(old(self)@),
        ensures
            registry_wf(final(self)@),
            registry_step(old(self)@, final(self)@),
            final(self)@ == spec_finish_state(old(self)@, id as int, idx as int, oc, now),
    {
        if id >= self.jobs.len() as u64 {
            proof {
                assert(self@.jobs =~= old(self)@.jobs);
            }
            return ;
        }
        let i = id as usize;
        let applicable = match self.jobs[i].status {
            JobStatus::Running => idx < self.jobs[i].subtasks.len() && (match self.jobs[
                i
            ].subtasks[idx].status {
                SubTaskStatus::Running => true,
                _ => false,
            }),
            _ => false,
        };
        if !applicable {
            proof {
                assert(self@.jobs =~= old(self)@.jobs);
            }
            return ;
        }
        let ghost jold = old(self)@.jobs[id as int];
        match &oc {
            SubTaskOutcome::Success(path) => {
                self.jobs[i].subtasks[idx].status = SubTaskStatus::Completed;
                self.jobs[i].subtasks[idx].progress_percent = 100;
                self.jobs[i].subtasks[idx].output = Some(path.clone());
                self.jobs[i].outputs.push(path.clone());
            },
            SubTaskOutcome::Failure(reason) => {
                self.jobs[i].subtasks[idx].status = SubTaskStatus::Failed;
                self.jobs[i].subtasks[idx].progress_percent = 100;
                self.jobs[i].subtasks[idx].error = Some(reason.clone());
            },
            SubTaskOutcome::Cancelled => {
                self.jobs[i].subtasks[idx].status = SubTaskStatus::Cancelled;
            },
        }
        let ghost ss2 = jold.subtasks.update(
            idx as int,
            spec_apply_outcome(jold.subtasks[idx as int], oc),
        );
        proof {
            assert(self@.jobs[id as int].subtasks =~= ss2);
            assert(self@.jobs[id as int].subtasks =~= crate::job::subtask_views(
                self.jobs@[id as int].subtasks@,
            ));
            assert(spec_subtask_progress_ok(ss2));
            lemma_mean_progress_bound(ss2);
        }
        let sum = sum_progress(&self.jobs[i].subtasks);
        let n = self.jobs[i].subtasks.len();
        let mean = (sum / (n as u128)) as u32;
        self.jobs[i].progress_percent = mean;
        let ghost j1 = JobView {
            subtasks: ss2,
            outputs: jold.outputs + (match oc {
                SubTaskOutcome::Success(p) => seq![p@],
                _ => Seq::<Seq<char>>::empty(),
            }),
            progress_percent: spec_mean_progress(ss2) as u32,
            ..jold
        };
        proof {
            assert(self@.jobs[id as int].outputs =~= j1.outputs);
            assert(self@.jobs[id as int] == j1);
        }
        let cancel = self.jobs[i].cancel_requested;
        let in_flight = count_status(&self.jobs[i].subtasks, SubTaskStatus::Running);
        let finished = all_terminal(&self.jobs[i].subtasks);
        proof {
            assert(self@.jobs[id as int].subtasks =~= crate::job::subtask_views(
                self.jobs@[id as int].subtasks@,
            ));
            assert(job_wf(jold));
            assert forall|w: int|
                0 <= w < ss2.len() implies (#[trigger] ss2[w]).index == w && ss2[
                w
            ].progress_percent <= 100 by {
                if w != idx as int {
                    assert(ss2[w] == jold.subtasks[w]);
                    assert(jold.subtasks[w].index == w && jold.subtasks[w].progress_percent
                        <= 100);
                } else {
                    assert(jold.subtasks[idx as int].index == idx as int && jold.subtasks[
                        idx as int
                    ].progress_percent <= 100);
                }
            }
            lemma_mean_progress_bound(ss2);
            assert(job_wf(j1));
            assert forall|q: int|
                0 <= q < self@.jobs.len() && q != id as int implies #[trigger] self@.jobs[q]
                == old(self)@.jobs[q] by {}
            assert(registry_wf(self@));
        }
        if (cancel && in_flight == 0) || finished {
            self.apply_settle(i, now);
        }
        let p = self.jobs[i].progress_percent;
        let st = self.jobs[i].status;
        let ev = ProgressEvent {
            job_id: id,
            status: st,
            progress_percent: p,
            message: String::from_str("subtask finished"),
            emitted_at: now,
        };
        self.bus.publish(ev);
        proof {
            let ghost target = spec_finish_state(old(self)@, id as int, idx as int, oc, now);
            assert(self@.jobs =~= target.jobs);
        }
    }
}

/// No sequence of registry snapshots can show an illegal status
/// transition: between any two adjacent snapshots (every mutating
/// operation promises `registry_step`), each stored job's status moves
/// along an edge of the state machine or stays put, and a job that was
/// terminal is entirely unchanged — `Completed -> Running` and its like
/// can never be observed.
pub proof fn lemma_no_illegal_transition(a: RegistryView, b: RegistryView, id: int)
    requires
        registry_step(a, b),
        0 <= id < a.jobs.len(),
    ensures
        legal_step(a.jobs[id].status, b.jobs[id].status),
        spec_is_terminal(a.jobs[id].status) ==> b.jobs[id] == a.jobs[id],
{
}

/// Requesting cancellation twice has the same effect on the registry as
/// requesting it once, and the second request is answered exactly as the
/// first: in particular, once the job is terminal both answers are `false`
/// and nothing changes.
pub proof fn lemma_cancel_idempotent(r: RegistryView, id: int)
    ensures
        spec_request_cancel_state(spec_request_cancel_state(r, id), id) == spec_request_cancel_state(
            r,
            id,
        ),
        spec_request_cancel_result(spec_request_cancel_state(r, id), id)
            == spec_request_cancel_result(r, id),
        0 <= id < r.jobs.len() && spec_is_terminal(r.jobs[id].status) ==> !spec_request_cancel_result(
            r,
            id,
        ) && spec_request_cancel_state(r, id) == r,
{
    let s1 = spec_request_cancel_state(r, id);
    if 0 <= id < r.jobs.len() && !spec_is_terminal(r.jobs[id].status) {
        assert(s1.jobs[id].status == r.jobs[id].status);
        let again = JobView { cancel_requested: true, ..s1.jobs[id] };
        assert(again == s1.jobs[id]);
        assert(s1.jobs.update(id, again) =~= s1.jobs);
        assert(spec_request_cancel_state(s1, id) == s1);
    }
}

} // verus!
