//! The job and sub-task state machines.
//!
//! A job moves `Pending -> Running -> {Completed, PartiallyCompleted, Failed,
//! Cancelled}`, with the one extra edge `Pending -> Cancelled` for a job whose
//! cancellation is requested before execution starts.  The four right-hand
//! states are terminal: no mutation of a terminal status is ever legal.

use vstd::prelude::*;

verus! {

/// Lifecycle state of a job.
#[derive(Clone, Copy, Debug, PartialEq, Eq, Structural)]
pub enum JobStatus {
    Pending,
    Running,
    Completed,
    PartiallyCompleted,
    Failed,
    Cancelled,
}

/// Lifecycle state of one sub-task of a collection job.
#[derive(Clone, Copy, Debug, PartialEq, Eq, Structural)]
pub enum SubTaskStatus {
    Pending,
    Running,
    Completed,
    Failed,
    Cancelled,
}

/// Whether a job is single-item or a collection of items.
#[derive(Clone, Copy, Debug, PartialEq, Eq, Structural)]
pub enum JobKind {
    Single,
    Collection,
}

/// A terminal job status admits no further transition.
pub open spec fn spec_is_terminal(s: JobStatus) -> bool {
    s == JobStatus::Completed || s == JobStatus::PartiallyCompleted || s == JobStatus::Failed
        || s == JobStatus::Cancelled
}

/// The edges of the job state machine, plus staying in place.
///
/// Every mutation of a stored job promises `legal_step(old, new)`, so no
/// sequence of registry snapshots can show an illegal transition.
pub open spec fn legal_step(a: JobStatus, b: JobStatus) -> bool {
    ||| a == b
    ||| (a == JobStatus::Pending && (b == JobStatus::Running || b == JobStatus::Cancelled))
    ||| (a == JobStatus::Running && spec_is_terminal(b))
}

/// A terminal sub-task status admits no further transition.
pub open spec fn spec_subtask_is_terminal(s: SubTaskStatus) -> bool {
    s == SubTaskStatus::Completed || s == SubTaskStatus::Failed || s == SubTaskStatus::Cancelled
}

/// The edges of the sub-task state machine, plus staying in place.
pub open spec fn legal_subtask_step(a: SubTaskStatus, b: SubTaskStatus) -> bool {
    ||| a == b
    ||| (a == SubTaskStatus::Pending && (b == SubTaskStatus::Running || b
        == SubTaskStatus::Cancelled))
    ||| (a == SubTaskStatus::Running && spec_subtask_is_terminal(b))
}

impl JobStatus {
    /// Whether this status is terminal.
    pub fn is_terminal(&self) -> (r: bool)
        ensures
            r == spec_is_terminal(*self),
    {
        match self {
            JobStatus::Completed => true,
            JobStatus::PartiallyCompleted => true,
            JobStatus::Failed => true,
            JobStatus::Cancelled => true,
            _ => false,
        }
    }
}

impl SubTaskStatus {
    /// Whether this sub-task status is terminal.
    pub fn is_terminal(&self) -> (r: bool)
        ensures
            r == spec_subtask_is_terminal(*self),
    {
        match self {
            SubTaskStatus::Completed => true,
            SubTaskStatus::Failed => true,
            SubTaskStatus::Cancelled => true,
            _ => false,
        }
    }
}

/// Once a job status is terminal, the only legal step is to stay in place:
/// a terminal status is final.
pub proof fn lemma_terminal_is_final(a: JobStatus, b: JobStatus)
    requires
        spec_is_terminal(a),
        legal_step(a, b),
    ensures
        a == b,
{
}

/// Legal steps compose: a job observed at `a`, later at `b`, later at `c`,
/// with each pair a legal step, never revisits a left state once it is
/// terminal; in particular `Completed -> Running` can never be observed.
pub proof fn lemma_no_illegal_resurrection(a: JobStatus, b: JobStatus)
    requires
        legal_step(a, b),
        a != b,
    ensures
        !spec_is_terminal(a),
        b != JobStatus::Pending,
{
}

/// The terminal status of a collection job, computed from its sub-task
/// outcomes once every sub-task has settled.
///
/// A requested cancellation wins outright; otherwise all successes give
/// `Completed`, all failures give `Failed`, and a mix gives
/// `PartiallyCompleted`.
pub open spec fn spec_aggregate_status(n_success: nat, n_failed: nat, cancelled: bool) -> JobStatus {
    if cancelled {
        JobStatus::Cancelled
    } else if n_failed == 0 {
        JobStatus::Completed
    } else if n_success == 0 {
        JobStatus::Failed
    } else {
        JobStatus::PartiallyCompleted
    }
}

/// Aggregate the terminal outcomes of a collection's sub-tasks into the
/// parent job's terminal status.
pub fn aggregate_status(n_success: usize, n_failed: usize, cancelled: bool) -> (r: JobStatus)
    ensures
        r == spec_aggregate_status(n_success as nat, n_failed as nat, cancelled),
        spec_is_terminal(r),
{
    if cancelled {
        JobStatus::Cancelled
    } else if n_failed == 0 {
        JobStatus::Completed
    } else if n_success == 0 {
        JobStatus::Failed
    } else {
        JobStatus::PartiallyCompleted
    }
}

/// All-success aggregation yields `Completed`; all-failure yields `Failed`;
/// any mix (absent cancellation) yields `PartiallyCompleted`.
pub proof fn lemma_aggregate_cases(n_success: nat, n_failed: nat)
    ensures
        spec_aggregate_status(n_success, 0, false) == JobStatus::Completed,
        n_failed > 0 ==> spec_aggregate_status(0, n_failed, false) == JobStatus::Failed,
        n_success > 0 && n_failed > 0 ==> spec_aggregate_status(n_success, n_failed, false)
            == JobStatus::PartiallyCompleted,
        spec_aggregate_status(n_success, n_failed, true) == JobStatus::Cancelled,
{
}

} // verus!
