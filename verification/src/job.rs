//! Jobs and sub-tasks: the data the registry owns.

use vstd::prelude::*;
use crate::status::{JobStatus, SubTaskStatus, JobKind, spec_is_terminal, spec_subtask_is_terminal};

verus! {

/// One member of a collection job, owned by its parent job.
pub struct SubTask {
    pub index: usize,
    pub status: SubTaskStatus,
    pub progress_percent: u32,
    pub output: Option<String>,
    pub error: Option<String>,
}

/// The mathematical value of a sub-task.
pub ghost struct SubTaskView {
    pub index: int,
    pub status: SubTaskStatus,
    pub progress_percent: u32,
    pub output: Option<Seq<char>>,
    pub error: Option<Seq<char>>,
}

impl View for SubTask {
    type V = SubTaskView;

    open spec fn view(&self) -> SubTaskView {
        SubTaskView {
            index: self.index as int,
            status: self.status,
            progress_percent: self.progress_percent,
            output: match self.output {
                Some(ref s) => Some(s@),
                None => None,
            },
            error: match self.error {
                Some(ref s) => Some(s@),
                None => None,
            },
        }
    }
}

/// What a caller submits: the kind of job, its target, the pass-through
/// format and quality hints, and the collection concurrency bound.
pub struct JobSpec {
    pub kind: JobKind,
    pub target: String,
    pub format: String,
    pub quality_hint: String,
    pub max_concurrent: usize,
}

/// The mathematical value of a job specification.
pub ghost struct JobSpecView {
    pub kind: JobKind,
    pub target: Seq<char>,
    pub format: Seq<char>,
    pub quality_hint: Seq<char>,
    pub max_concurrent: int,
}

impl View for JobSpec {
    type V = JobSpecView;

    open spec fn view(&self) -> JobSpecView {
        JobSpecView {
            kind: self.kind,
            target: self.target@,
            format: self.format@,
            quality_hint: self.quality_hint@,
            max_concurrent: self.max_concurrent as int,
        }
    }
}

/// One job, as stored in the registry.
pub struct Job {
    pub id: u64,
    pub kind: JobKind,
    pub target: String,
    pub format: String,
    pub quality_hint: String,
    pub status: JobStatus,
    pub progress_percent: u32,
    pub created_at: u64,
    pub started_at: Option<u64>,
    pub completed_at: Option<u64>,
    pub outputs: Vec<String>,
    pub last_error: Option<String>,
    pub cancel_requested: bool,
    pub subtasks: Vec<SubTask>,
    pub max_concurrent: usize,
}

/// The mathematical value of a job.
pub ghost struct JobView {
    pub id: u64,
    pub kind: JobKind,
    pub target: Seq<char>,
    pub format: Seq<char>,
    pub quality_hint: Seq<char>,
    pub status: JobStatus,
    pub progress_percent: u32,
    pub created_at: u64,
    pub started_at: Option<u64>,
    pub completed_at: Option<u64>,
    pub outputs: Seq<Seq<char>>,
    pub last_error: Option<Seq<char>>,
    pub cancel_requested: bool,
    pub subtasks: Seq<SubTaskView>,
    pub max_concurrent: int,
}

impl View for Job {
    type V = JobView;

    open spec fn view(&self) -> JobView {
        JobView {
            id: self.id,
            kind: self.kind,
            target: self.target@,
            format: self.format@,
            quality_hint: self.quality_hint@,
            status: self.status,
            progress_percent: self.progress_percent,
            created_at: self.created_at,
            started_at: self.started_at,
            completed_at: self.completed_at,
            outputs: Seq::new(self.outputs@.len(), |i: int| self.outputs@[i]@),
            last_error: match self.last_error {
                Some(ref s) => Some(s@),
                None => None,
            },
            cancel_requested: self.cancel_requested,
            subtasks: Seq::new(self.subtasks@.len(), |i: int| self.subtasks@[i]@),
            max_concurrent: self.max_concurrent as int,
        }
    }
}

/// Well-formedness of a stored job.
///
/// Progress stays within 0..=100; a single job has no sub-tasks; sub-tasks
/// are numbered by position; a pending job has not started nor completed; a
/// running job has started; a job has a completion time exactly when its
/// status is terminal; the concurrency bound is positive.
pub open spec fn job_wf(j: JobView) -> bool {
    &&& j.progress_percent <= 100
    &&& (j.kind == JobKind::Single ==> j.subtasks.len() == 0)
    &&& (forall|i: int|
        0 <= i < j.subtasks.len() ==> (#[trigger] j.subtasks[i]).index == i && j.subtasks[
            i
        ].progress_percent <= 100)
    &&& (j.status == JobStatus::Pending ==> j.started_at is None && j.completed_at is None
        && j.subtasks.len() == 0 && j.progress_percent == 0)
    &&& (j.status == JobStatus::Running ==> j.started_at is Some)
    &&& (spec_is_terminal(j.status) <==> j.completed_at is Some)
    &&& j.max_concurrent >= 1
}

/// The job a fresh submission stores: pending, empty, with the caller's
/// fields carried over.
pub open spec fn spec_new_job(id: u64, s: JobSpecView, now: u64) -> JobView {
    JobView {
        id: id,
        kind: s.kind,
        target: s.target,
        format: s.format,
        quality_hint: s.quality_hint,
        status: JobStatus::Pending,
        progress_percent: 0,
        created_at: now,
        started_at: None,
        completed_at: None,
        outputs: Seq::empty(),
        last_error: None,
        cancel_requested: false,
        subtasks: Seq::empty(),
        max_concurrent: if s.max_concurrent >= 1 {
            s.max_concurrent
        } else {
            1
        },
    }
}

/// The mathematical values of a stored sub-task sequence.
pub open spec fn subtask_views(s: Seq<SubTask>) -> Seq<SubTaskView> {
    Seq::new(s.len(), |i: int| s[i]@)
}

/// How many sub-tasks hold the given status.
pub open spec fn spec_count_subtasks(ss: Seq<SubTaskView>, st: SubTaskStatus) -> int
    decreases ss.len(),
{
    if ss.len() == 0 {
        0
    } else {
        spec_count_subtasks(ss.drop_last(), st) + if ss.last().status == st {
            1int
        } else {
            0int
        }
    }
}

/// Whether every sub-task has settled.
pub open spec fn spec_all_subtasks_terminal(ss: Seq<SubTaskView>) -> bool {
    forall|i: int| 0 <= i < ss.len() ==> spec_subtask_is_terminal((#[trigger] ss[i]).status)
}

/// The first sub-task at or after position `i` that is still pending.
pub open spec fn spec_first_pending(ss: Seq<SubTaskView>, i: nat) -> Option<int>
    decreases ss.len() - i,
{
    if i >= ss.len() {
        None
    } else if ss[i as int].status == SubTaskStatus::Pending {
        Some(i as int)
    } else {
        spec_first_pending(ss, i + 1)
    }
}

/// The recorded sub-task errors, one line per failed member, in order.
pub open spec fn spec_join_errors(ss: Seq<SubTaskView>) -> Seq<char>
    decreases ss.len(),
{
    if ss.len() == 0 {
        Seq::empty()
    } else {
        spec_join_errors(ss.drop_last()) + match ss.last().error {
            Some(e) => e + seq!['\n'],
            None => Seq::<char>::empty(),
        }
    }
}

/// Every still-pending sub-task marked cancelled; the rest untouched.
pub open spec fn spec_cancel_pending(ss: Seq<SubTaskView>) -> Seq<SubTaskView> {
    ss.map_values(
        |t: SubTaskView|
            if t.status == SubTaskStatus::Pending {
                SubTaskView { status: SubTaskStatus::Cancelled, ..t }
            } else {
                t
            },
    )
}

/// The sum of the sub-tasks' progress values.
pub open spec fn spec_progress_sum(ss: Seq<SubTaskView>) -> int
    decreases ss.len(),
{
    if ss.len() == 0 {
        0
    } else {
        spec_progress_sum(ss.drop_last()) + ss.last().progress_percent
    }
}

/// A collection job's aggregate progress: the mean of its sub-tasks'
/// progress values (zero when it has none).
pub open spec fn spec_mean_progress(ss: Seq<SubTaskView>) -> int {
    if ss.len() == 0 {
        0
    } else {
        spec_progress_sum(ss) / ss.len() as int
    }
}

} // verus!
