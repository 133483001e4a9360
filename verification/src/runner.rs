//! The job runner for single jobs: it starts a pending job, lets the
//! escalation engine decide the outcome, and records the terminal state in
//! the registry — `Completed` with the artifact on the first success,
//! `Failed` with every recorded reason (one line per attempted strategy, in
//! order) when all strategies are exhausted, and `Cancelled` when the
//! cancellation flag was observed first.

use vstd::prelude::*;
use crate::escalate::{
    StrategyDescriptor, AttemptOutcome, EscalationResult, run_escalation, spec_first_success,
    spec_all_reasons, lemma_first_success_ge,
};
use crate::registry::{
    JobRegistry, registry_wf, registry_step, spec_start_outcome, spec_start_state,
    spec_complete_state, spec_fail_state, spec_cancelled_state, StartOutcome,
};
use crate::status::JobStatus;
use crate::text::{join_lines, spec_join_lines, string_views};

verus! {

/// Record an escalation's result on a running job: success completes it
/// with the artifact, exhaustion fails it with the joined reasons, and a
/// cancelled escalation cancels it.
pub fn finish_single(reg: &mut JobRegistry, id: u64, result: EscalationResult, now: u64)
    requires
        registry_wf(old(reg)@),
    ensures
        registry_wf(final(reg)@),
        registry_step(old(reg)@, final(reg)@),
        match result {
            EscalationResult::Done(p) => final(reg)@ == spec_complete_state(
                old(reg)@,
                id as int,
                p@,
                now,
            ),
            EscalationResult::Exhausted(rs) => final(reg)@ == spec_fail_state(
                old(reg)@,
                id as int,
                spec_join_lines(string_views(rs@)),
                now,
            ),
            EscalationResult::Cancelled => final(reg)@ == spec_cancelled_state(
                old(reg)@,
                id as int,
                now,
            ),
        },
{
    match result {
        EscalationResult::Done(p) => {
            reg.mark_completed(id, p, now);
        },
        EscalationResult::Exhausted(rs) => {
            let error = join_lines(&rs);
            reg.mark_failed(id, error, now);
        },
        EscalationResult::Cancelled => {
            reg.mark_cancelled(id, now);
        },
    }
}

/// Drive one single job from `Pending` to its terminal state, given the
/// outcome each configured strategy would produce.  Returns how many
/// strategies were actually attempted.
///
/// A job whose cancellation was requested before it started ends
/// `Cancelled` with zero attempts.  A started job ends `Completed` (with
/// the first success's artifact appended to its outputs, its error slot
/// untouched, and full progress) or `Failed` (with one recorded reason per
/// strategy, in attempt order, as its error).
pub fn run_single(
    reg: &mut JobRegistry,
    id: u64,
    strategies: &Vec<StrategyDescriptor>,
    outcomes: &Vec<AttemptOutcome>,
    now: u64,
) -> (attempts: usize)
    requires
        registry_wf(old(reg)@),
        outcomes@.len() == strategies@.len(),
    ensures
        registry_wf(final(reg)@),
        spec_start_outcome(old(reg)@, id as int) == StartOutcome::Unchanged ==> attempts == 0
            && final(reg)@ == old(reg)@,
        spec_start_outcome(old(reg)@, id as int) == StartOutcome::CancelledBeforeStart ==> attempts
            == 0 && final(reg)@ == spec_start_state(old(reg)@, id as int, now) && final(reg)@.jobs[
            id as int
        ].status == JobStatus::Cancelled,
        spec_start_outcome(old(reg)@, id as int) == StartOutcome::Started ==> ({
            let j0 = old(reg)@.jobs[id as int];
            let os = outcomes@;
            match spec_first_success(os, 0) {
                Some(i) => attempts == i + 1 && (os[i] matches AttemptOutcome::Success(p)
                    && final(reg)@.jobs[id as int] == (crate::job::JobView {
                    status: JobStatus::Completed,
                    progress_percent: 100,
                    started_at: Some(now),
                    completed_at: Some(now),
                    outputs: j0.outputs.push(p@),
                    ..j0
                })),
                None => attempts == os.len() && final(reg)@.jobs[id as int] == (crate::job::JobView {
                    status: JobStatus::Failed,
                    started_at: Some(now),
                    completed_at: Some(now),
                    last_error: Some(spec_join_lines(spec_all_reasons(os))),
                    ..j0
                }),
            }
        }),
{
    let started = reg.start_running(id, now);
    match started {
        StartOutcome::Unchanged => 0,
        StartOutcome::CancelledBeforeStart => 0,
        StartOutcome::Started => {
            let (result, attempts) = run_escalation(strategies, outcomes, None);
            proof {
                lemma_first_success_ge(outcomes@, 0);
            }
            finish_single(reg, id, result, now);
            attempts
        },
    }
}

} // verus!
