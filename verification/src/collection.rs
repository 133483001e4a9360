//! The collection expander: it turns one collection job into independent
//! sub-task runs and aggregates their terminal outcomes into the parent
//! job's terminal status.
//!
//! Dispatching honours the parent's cancellation flag and its concurrency
//! bound; a requested cancellation stops further dispatch but never
//! interrupts work already in flight, and once nothing is in flight the
//! parent ends `Cancelled` no matter how the finished members fared.
//! Otherwise, once every member settles, all successes give `Completed`,
//! all failures give `Failed`, and a mix gives `PartiallyCompleted`.

use vstd::prelude::*;
use crate::job::{
    JobView, SubTaskView, spec_count_subtasks, spec_all_subtasks_terminal, spec_mean_progress,
    spec_progress_sum, spec_first_pending, spec_cancel_pending,
};
use crate::registry::{
    JobRegistry, RegistryView, registry_wf, spec_start_outcome, spec_start_state,
    spec_expand_state, spec_dispatch_result, spec_can_settle, spec_settle_job,
    spec_apply_outcome, SubTaskOutcome, StartOutcome,
};
use crate::status::{JobStatus, SubTaskStatus, JobKind, spec_aggregate_status};
use crate::escalate::spec_limit;

verus! {

/// The sub-task status a member's outcome settles to.
pub open spec fn spec_outcome_status(oc: SubTaskOutcome) -> SubTaskStatus {
    match oc {
        SubTaskOutcome::Success(_) => SubTaskStatus::Completed,
        SubTaskOutcome::Failure(_) => SubTaskStatus::Failed,
        SubTaskOutcome::Cancelled => SubTaskStatus::Cancelled,
    }
}

/// How many outcomes are successes.
pub open spec fn spec_count_success(os: Seq<SubTaskOutcome>) -> int
    decreases os.len(),
{
    if os.len() == 0 {
        0
    } else {
        spec_count_success(os.drop_last()) + if os.last() is Success {
            1int
        } else {
            0int
        }
    }
}

/// How many outcomes are failures.
pub open spec fn spec_count_failure(os: Seq<SubTaskOutcome>) -> int
    decreases os.len(),
{
    if os.len() == 0 {
        0
    } else {
        spec_count_failure(os.drop_last()) + if os.last() is Failure {
            1int
        } else {
            0int
        }
    }
}

/// The artifact locations of the successful outcomes, in order.
pub open spec fn spec_success_paths(os: Seq<SubTaskOutcome>) -> Seq<Seq<char>>
    decreases os.len(),
{
    if os.len() == 0 {
        Seq::empty()
    } else {
        spec_success_paths(os.drop_last()) + match os.last() {
            SubTaskOutcome::Success(p) => seq![p@],
            _ => Seq::<Seq<char>>::empty(),
        }
    }
}

/// No outcome is a cooperative cancellation.
pub open spec fn spec_no_cancelled_outcome(os: Seq<SubTaskOutcome>) -> bool {
    forall|i: int| 0 <= i < os.len() ==> !((#[trigger] os[i]) is Cancelled)
}

/// A fresh pending sub-task at position `w`.
pub open spec fn spec_pending_subtask(w: int) -> SubTaskView {
    SubTaskView {
        index: w,
        status: SubTaskStatus::Pending,
        progress_percent: 0,
        output: None,
        error: None,
    }
}

/// The sub-tasks of a collection of `n` members after the first `k` have
/// settled with their outcomes and the rest still wait.
pub open spec fn spec_applied(os: Seq<SubTaskOutcome>, k: int, n: int) -> Seq<SubTaskView> {
    Seq::new(
        n as nat,
        |w: int|
            if w < k {
                spec_apply_outcome(spec_pending_subtask(w), os[w])
            } else {
                spec_pending_subtask(w)
            },
    )
}

/// No sub-task of such a sequence holds status `st` when none of its
/// entries does.
proof fn lemma_count_zero(ss: Seq<SubTaskView>, st: SubTaskStatus)
    requires
        forall|i: int| 0 <= i < ss.len() ==> (#[trigger] ss[i]).status != st,
    ensures
        spec_count_subtasks(ss, st) == 0,
    decreases ss.len(),
{
    if ss.len() > 0 {
        lemma_count_zero(ss.drop_last(), st);
    }
}

/// Scanning for the first pending sub-task may skip a settled prefix.
proof fn lemma_first_pending_from(ss: Seq<SubTaskView>, i: nat, j: nat)
    requires
        i <= j <= ss.len(),
        forall|w: int| i <= w < j ==> (#[trigger] ss[w]).status != SubTaskStatus::Pending,
    ensures
        spec_first_pending(ss, i) == spec_first_pending(ss, j),
    decreases j - i,
{
    if i < j {
        lemma_first_pending_from(ss, i + 1, j);
    }
}

/// The settled sub-tasks of a full run count its successes and failures.
proof fn lemma_applied_counts(os: Seq<SubTaskOutcome>)
    ensures
        spec_count_subtasks(spec_applied(os, os.len() as int, os.len() as int), SubTaskStatus::Completed)
            == spec_count_success(os),
        spec_count_subtasks(spec_applied(os, os.len() as int, os.len() as int), SubTaskStatus::Failed)
            == spec_count_failure(os),
    decreases os.len(),
{
    let n = os.len() as int;
    if n > 0 {
        lemma_applied_counts(os.drop_last());
        let full = spec_applied(os, n, n);
        let prev = spec_applied(os.drop_last(), n - 1, n - 1);
        assert(full.drop_last() =~= prev);
        assert(full.last() == spec_apply_outcome(spec_pending_subtask(n - 1), os[n - 1]));
    } else {
        assert(spec_applied(os, 0, 0) =~= Seq::<SubTaskView>::empty());
    }
}

/// The progress sum of a sequence whose entries all read 100 is exactly
/// `100 * len`, so the mean is 100.
proof fn lemma_mean_of_full_progress(ss: Seq<SubTaskView>)
    requires
        ss.len() >= 1,
        forall|i: int| 0 <= i < ss.len() ==> (#[trigger] ss[i]).progress_percent == 100,
    ensures
        spec_mean_progress(ss) == 100,
    decreases ss.len(),
{
    assert(spec_progress_sum(ss) == 100 * ss.len()) by {
        lemma_sum_of_full_progress(ss);
    }
    assert((100 * ss.len() as int) / ss.len() as int == 100) by (nonlinear_arith)
        requires
            ss.len() >= 1,
    {}
}

/// Helper for `lemma_mean_of_full_progress`.
proof fn lemma_sum_of_full_progress(ss: Seq<SubTaskView>)
    requires
        forall|i: int| 0 <= i < ss.len() ==> (#[trigger] ss[i]).progress_percent == 100,
    ensures
        spec_progress_sum(ss) == 100 * ss.len(),
    decreases ss.len(),
{
    if ss.len() > 0 {
        assert(forall|i: int|
            0 <= i < ss.len() - 1 ==> (#[trigger] ss.drop_last()[i]).progress_percent == 100);
        lemma_sum_of_full_progress(ss.drop_last());
    }
}

/// The stored job at `id` is well-formed (a convenient trigger form).
pub open spec fn job_wf_entry(r: RegistryView, id: int) -> bool {
    0 <= id < r.jobs.len() && crate::job::job_wf(r.jobs[id])
}

/// Drive one collection job from `Pending` to its terminal state: expand it
/// into one sub-task per member, run the members in order with the outcomes
/// they would produce, request cancellation after `cancel_after` members
/// (if anywhere), and settle the parent.
///
/// With no effective cancellation the parent ends in the aggregate of its
/// members' outcomes, holds every successful artifact in member order, and
/// reads full progress once all members finished their work.  With
/// cancellation after `c < n` members, exactly those `c` members keep their
/// outcomes, nothing further is dispatched, the remaining members are
/// cancelled, and the parent ends `Cancelled` no matter how the finished
/// members fared.
pub fn run_collection(
    reg: &mut JobRegistry,
    id: u64,
    outcomes: &Vec<SubTaskOutcome>,
    cancel_after: Option<usize>,
    now: u64,
)
    requires
        registry_wf(old(reg)@),
    ensures
        registry_wf(final(reg)@),
        spec_start_outcome(old(reg)@, id as int) == StartOutcome::Unchanged ==> final(reg)@
            == old(reg)@,
        spec_start_outcome(old(reg)@, id as int) == StartOutcome::CancelledBeforeStart
            ==> final(reg)@ == spec_start_state(old(reg)@, id as int, now) && final(reg)@.jobs[
            id as int
        ].status == JobStatus::Cancelled,
        spec_start_outcome(old(reg)@, id as int) == StartOutcome::Started && old(reg)@.jobs[
            id as int
        ].kind == JobKind::Collection ==> ({
            let j0 = old(reg)@.jobs[id as int];
            let os = outcomes@;
            let n = os.len() as int;
            let stop = spec_limit(n, cancel_after);
            let jf = final(reg)@.jobs[id as int];
            &&& jf.subtasks.len() == n
            &&& (stop == n ==> {
                &&& jf.status == spec_aggregate_status(
                    spec_count_success(os) as nat,
                    spec_count_failure(os) as nat,
                    false,
                )
                &&& jf.outputs == j0.outputs + spec_success_paths(os)
                &&& (forall|i: int|
                    0 <= i < n ==> (#[trigger] jf.subtasks[i]).status == spec_outcome_status(
                        os[i],
                    ))
                &&& (n > 0 && spec_no_cancelled_outcome(os) ==> jf.progress_percent == 100)
            })
            &&& (stop < n ==> {
                &&& jf.status == JobStatus::Cancelled
                &&& jf.outputs == j0.outputs + spec_success_paths(os.take(stop))
                &&& (forall|i: int|
                    0 <= i < stop ==> (#[trigger] jf.subtasks[i]).status == spec_outcome_status(
                        os[i],
                    ))
                &&& (forall|i: int|
                    stop <= i < n ==> (#[trigger] jf.subtasks[i]).status
                        == SubTaskStatus::Cancelled)
            })
        }),
{
    let n = outcomes.len();
    let started = reg.start_running(id, now);
    match started {
        StartOutcome::Unchanged => {
            return ;
        },
        StartOutcome::CancelledBeforeStart => {
            return ;
        },
        StartOutcome::Started => {},
    }
    let is_collection = match reg.get_job(id) {
        Some(j) => match j.kind {
            JobKind::Collection => true,
            _ => false,
        },
        None => false,
    };
    if !is_collection {
        return ;
    }
    let ghost s0 = old(reg)@;
    let ghost j0 = s0.jobs[id as int];
    let ghost os = outcomes@;
    let ghost j_running = JobView { status: JobStatus::Running, started_at: Some(now), ..j0 };
    reg.expand_subtasks(id, n);
    let ghost j_exp = JobView { subtasks: spec_applied(os, 0, n as int), ..j_running };
    proof {
        assert(spec_applied(os, 0, n as int) =~= spec_expand_state(
            spec_start_state(s0, id as int, now),
            id as int,
            n as int,
        ).jobs[id as int].subtasks);
        assert(reg@.jobs[id as int] == j_exp);
    }
    let stop = match cancel_after {
        Some(c) => if c < n {
            c
        } else {
            n
        },
        None => n,
    };
    proof {
        assert(job_wf_entry(s0, id as int));
        if n > 0 {
            lemma_sum_of_zero_progress(spec_applied(os, 0, n as int));
        }
        assert(spec_success_paths(os.take(0)) =~= Seq::<Seq<char>>::empty());
        assert(j0.outputs + spec_success_paths(os.take(0)) =~= j0.outputs);
        assert(reg@.jobs[id as int] == (JobView {
            subtasks: spec_applied(os, 0, n as int),
            outputs: j0.outputs + spec_success_paths(os.take(0)),
            progress_percent: spec_mean_progress(spec_applied(os, 0, n as int)) as u32,
            ..j_running
        }));
    }
    let mut k: usize = 0;
    while k < stop
        invariant
            registry_wf(reg@),
            k <= stop <= n,
            stop == spec_limit(n as int, cancel_after),
            n == os.len(),
            os == outcomes@,
            s0 == old(reg)@,
            registry_wf(s0),
            j0 == s0.jobs[id as int],
            j_running == (JobView { status: JobStatus::Running, started_at: Some(now), ..j0 }),
            spec_start_outcome(s0, id as int) == StartOutcome::Started,
            id < reg@.jobs.len(),
            reg@.jobs.len() == s0.jobs.len(),
            forall|q: int|
                0 <= q < reg@.jobs.len() && q != id ==> #[trigger] reg@.jobs[q] == s0.jobs[q],
            !j0.cancel_requested,
            (k < n || n == 0) ==> reg@.jobs[id as int] == (JobView {
                subtasks: spec_applied(os, k as int, n as int),
                outputs: j0.outputs + spec_success_paths(os.take(k as int)),
                progress_percent: spec_mean_progress(spec_applied(os, k as int, n as int)) as u32,
                ..j_running
            }),
            k == n && n > 0 ==> reg@.jobs[id as int] == spec_settle_job(
                JobView {
                    subtasks: spec_applied(os, n as int, n as int),
                    outputs: j0.outputs + spec_success_paths(os.take(n as int)),
                    progress_percent: spec_mean_progress(
                        spec_applied(os, n as int, n as int),
                    ) as u32,
                    ..j_running
                },
                now,
            ),
        decreases stop - k,
    {
        let ghost jcur = reg@.jobs[id as int];
        proof {
            assert(job_wf_entry(reg@, id as int));
            assert(jcur.subtasks == spec_applied(os, k as int, n as int));
            assert(forall|w: int|
                0 <= w < n ==> (#[trigger] jcur.subtasks[w]).status != SubTaskStatus::Running);
            lemma_count_zero(jcur.subtasks, SubTaskStatus::Running);
            assert(forall|w: int|
                0 <= w < k ==> (#[trigger] jcur.subtasks[w]).status != SubTaskStatus::Pending);
            lemma_first_pending_from(jcur.subtasks, 0, k as nat);
            assert(jcur.subtasks[k as int].status == SubTaskStatus::Pending);
            assert(jcur.status == JobStatus::Running);
            assert(!jcur.cancel_requested);
            assert(jcur.max_concurrent >= 1);
            assert(spec_count_subtasks(jcur.subtasks, SubTaskStatus::Running) == 0);
            assert(spec_first_pending(jcur.subtasks, k as nat) == Some(k as int));
            assert(spec_first_pending(jcur.subtasks, 0) == Some(k as int));
            assert(spec_dispatch_result(reg@, id as int) == Some(k as int));
        }
        let t = match reg.dispatch_next_subtask(id) {
            Some(t) => t,
            None => {
                proof {
                    assert(false);
                }
                return ;
            },
        };
        let ghost j_mid = reg@.jobs[id as int];
        proof {
            assert(t == k);
            assert(j_mid.subtasks == jcur.subtasks.update(
                k as int,
                SubTaskView { status: SubTaskStatus::Running, ..jcur.subtasks[k as int] },
            ));
        }
        let oc = match &outcomes[k] {
            SubTaskOutcome::Success(p) => SubTaskOutcome::Success(p.clone()),
            SubTaskOutcome::Failure(e) => SubTaskOutcome::Failure(e.clone()),
            SubTaskOutcome::Cancelled => SubTaskOutcome::Cancelled,
        };
        let ghost ss2 = j_mid.subtasks.update(
            k as int,
            spec_apply_outcome(j_mid.subtasks[k as int], oc),
        );
        proof {
            assert(ss2 =~= spec_applied(os, k as int + 1, n as int));
        }
        reg.finish_subtask(id, t, oc, now);
        k = k + 1;
        proof {
            assert(os.take(k as int).drop_last() =~= os.take(k as int - 1));
            assert(os.take(k as int).last() == os[k as int - 1]);
            let outs2 = j0.outputs + spec_success_paths(os.take(k as int));
            assert((j0.outputs + spec_success_paths(os.take(k as int - 1))) + (match oc {
                SubTaskOutcome::Success(p) => seq![p@],
                _ => Seq::<Seq<char>>::empty(),
            }) =~= outs2);
            if k < n {
                assert(!spec_can_settle(
                    JobView {
                        subtasks: spec_applied(os, k as int, n as int),
                        outputs: outs2,
                        progress_percent: spec_mean_progress(
                            spec_applied(os, k as int, n as int),
                        ) as u32,
                        ..j_running
                    },
                )) by {
                    assert(spec_applied(os, k as int, n as int)[n as int - 1].status
                        == SubTaskStatus::Pending);
                }
            }
        }
    }
    if stop < n {
        let got = reg.request_cancel(id);
        proof {
            assert(got);
        }
        let extra = reg.dispatch_next_subtask(id);
        proof {
            assert(extra is None);
        }
    }
    proof {
        if k < n || n == 0 {
            let jcur = reg@.jobs[id as int];
            lemma_count_zero(jcur.subtasks, SubTaskStatus::Running);
            if n == 0 {
                assert(spec_all_subtasks_terminal(jcur.subtasks));
            }
        }
    }
    reg.settle_collection(id, now);
    proof {
        let jf = reg@.jobs[id as int];
        let full = spec_applied(os, n as int, n as int);
        if stop == n as int {
            assert(os.take(n as int) =~= os);
            if n > 0 {
                lemma_applied_counts(os);
                assert forall|i: int|
                    0 <= i < n implies (#[trigger] jf.subtasks[i]).status == spec_outcome_status(
                    os[i],
                ) by {
                    assert(jf.subtasks[i] == spec_apply_outcome(spec_pending_subtask(i), os[i]));
                }
                if spec_no_cancelled_outcome(os) {
                    assert forall|i: int|
                        0 <= i < n implies (#[trigger] full[i]).progress_percent == 100 by {
                        assert(!(os[i] is Cancelled));
                    }
                    lemma_mean_of_full_progress(full);
                }
            } else {
                assert(full =~= Seq::<SubTaskView>::empty());
                assert(spec_count_subtasks(full, SubTaskStatus::Completed) == 0);
                assert(spec_count_subtasks(full, SubTaskStatus::Failed) == 0);
                assert(spec_success_paths(os) =~= Seq::<Seq<char>>::empty());
                assert(jf.outputs =~= j0.outputs + spec_success_paths(os));
            }
        } else {
            let part = spec_applied(os, stop as int, n as int);
            assert(jf.subtasks == spec_cancel_pending(part));
            assert forall|i: int|
                0 <= i < stop implies (#[trigger] jf.subtasks[i]).status == spec_outcome_status(
                os[i],
            ) by {
                assert(part[i] == spec_apply_outcome(spec_pending_subtask(i), os[i]));
                assert(jf.subtasks[i] == (if part[i].status == SubTaskStatus::Pending {
                    SubTaskView { status: SubTaskStatus::Cancelled, ..part[i] }
                } else {
                    part[i]
                }));
            }
            assert forall|i: int|
                stop <= i < n implies (#[trigger] jf.subtasks[i]).status
                == SubTaskStatus::Cancelled by {
                assert(part[i] == spec_pending_subtask(i));
                assert(jf.subtasks[i] == (if part[i].status == SubTaskStatus::Pending {
                    SubTaskView { status: SubTaskStatus::Cancelled, ..part[i] }
                } else {
                    part[i]
                }));
            }
        }
    }
}

/// Helper: a sequence of fresh sub-tasks has zero progress sum.
proof fn lemma_sum_of_zero_progress(ss: Seq<SubTaskView>)
    requires
        forall|i: int| 0 <= i < ss.len() ==> (#[trigger] ss[i]).progress_percent == 0,
    ensures
        spec_progress_sum(ss) == 0,
    decreases ss.len(),
{
    if ss.len() > 0 {
        assert(forall|i: int|
            0 <= i < ss.len() - 1 ==> (#[trigger] ss.drop_last()[i]).progress_percent == 0);
        lemma_sum_of_zero_progress(ss.drop_last());
    }
}

} // verus!
