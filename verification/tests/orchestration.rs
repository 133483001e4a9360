//! Scenario tests for the job registry, the escalation engine, the single
//! job runner and the collection expander.

use rustify::escalate::{AttemptOutcome, EscalationEngine, NextStep, StrategyDescriptor};
use rustify::job::JobSpec;
use rustify::registry::{JobRegistry, StartOutcome, SubTaskOutcome};
use rustify::runner::run_single;
use rustify::collection::run_collection;
use rustify::status::{JobKind, JobStatus, SubTaskStatus};

fn strategy(name: &str) -> StrategyDescriptor {
    StrategyDescriptor { id: name.to_string(), timeout_ms: 30000, cooldown_ms: 0 }
}

fn single_spec(target: &str) -> JobSpec {
    JobSpec {
        kind: JobKind::Single,
        target: target.to_string(),
        format: "mp3".to_string(),
        quality_hint: "256".to_string(),
        max_concurrent: 1,
    }
}

fn collection_spec(target: &str, par: usize) -> JobSpec {
    JobSpec {
        kind: JobKind::Collection,
        target: target.to_string(),
        format: "mp3".to_string(),
        quality_hint: "256".to_string(),
        max_concurrent: par,
    }
}

#[test]
fn test_submit_and_lookup() {
    let mut reg = JobRegistry::new();
    let id = reg.submit_job(single_spec("t1"), 10);
    assert_eq!(id, 0);
    let job = reg.get_job(id).unwrap();
    assert_eq!(job.status, JobStatus::Pending);
    assert_eq!(job.target, "t1");
    assert_eq!(job.progress_percent, 0);
    assert!(reg.get_job(7).is_none());
    assert_eq!(reg.list_jobs().len(), 1);
}

#[test]
fn test_escalation_succeeds_after_failures() {
    // strategies [Fail, Fail, Success]: the job completes, the error slot
    // stays empty, and exactly three attempts were made
    let mut reg = JobRegistry::new();
    let id = reg.submit_job(single_spec("t"), 0);
    let strategies = vec![strategy("a"), strategy("b"), strategy("c")];
    let outcomes = vec![
        AttemptOutcome::Failure("first failed".to_string()),
        AttemptOutcome::Failure("second failed".to_string()),
        AttemptOutcome::Success("/out/file.mp3".to_string()),
    ];
    let attempts = run_single(&mut reg, id, &strategies, &outcomes, 5);
    assert_eq!(attempts, 3);
    let job = reg.get_job(id).unwrap();
    assert_eq!(job.status, JobStatus::Completed);
    assert_eq!(job.last_error, None);
    assert_eq!(job.outputs, vec!["/out/file.mp3".to_string()]);
    assert_eq!(job.progress_percent, 100);
    assert_eq!(job.started_at, Some(5));
    assert_eq!(job.completed_at, Some(5));
}

#[test]
fn test_escalation_exhausts_all_strategies() {
    // strategies [Fail, Fail, Fail]: the job fails with all three reasons
    // recorded in attempt order
    let mut reg = JobRegistry::new();
    let id = reg.submit_job(single_spec("t"), 0);
    let strategies = vec![strategy("a"), strategy("b"), strategy("c")];
    let outcomes = vec![
        AttemptOutcome::Failure("one".to_string()),
        AttemptOutcome::Timeout,
        AttemptOutcome::Failure("three".to_string()),
    ];
    let attempts = run_single(&mut reg, id, &strategies, &outcomes, 5);
    assert_eq!(attempts, 3);
    let job = reg.get_job(id).unwrap();
    assert_eq!(job.status, JobStatus::Failed);
    assert_eq!(job.last_error, Some("one\nstrategy timed out\nthree\n".to_string()));
    assert!(job.outputs.is_empty());
}

#[test]
fn test_cancel_pending_job_attempts_nothing() {
    // cancelling a pending job: it ends Cancelled with zero strategy
    // invocations
    let mut reg = JobRegistry::new();
    let id = reg.submit_job(single_spec("t"), 0);
    assert!(reg.request_cancel(id));
    let strategies = vec![strategy("a")];
    let outcomes = vec![AttemptOutcome::Success("/never".to_string())];
    let attempts = run_single(&mut reg, id, &strategies, &outcomes, 5);
    assert_eq!(attempts, 0);
    let job = reg.get_job(id).unwrap();
    assert_eq!(job.status, JobStatus::Cancelled);
    assert!(job.outputs.is_empty());
}

#[test]
fn test_cancel_idempotent() {
    // a second cancellation has the same observable effect as the first,
    // and answers false once the job is terminal
    let mut reg = JobRegistry::new();
    let id = reg.submit_job(single_spec("t"), 0);
    assert!(reg.request_cancel(id));
    assert!(reg.request_cancel(id));
    let first = reg.get_job(id).unwrap().cancel_requested;
    assert!(first);
    let outcomes: Vec<AttemptOutcome> = Vec::new();
    let strategies: Vec<StrategyDescriptor> = Vec::new();
    run_single(&mut reg, id, &strategies, &outcomes, 5);
    assert_eq!(reg.get_job(id).unwrap().status, JobStatus::Cancelled);
    assert!(!reg.request_cancel(id));
    assert!(!reg.request_cancel(99));
}

#[test]
fn test_collection_partial_success() {
    // five members with outcomes [S, S, F, S, F]: the parent ends
    // PartiallyCompleted, holds three artifacts, and reads full progress
    let mut reg = JobRegistry::new();
    let id = reg.submit_job(collection_spec("list", 3), 0);
    let outcomes = vec![
        SubTaskOutcome::Success("/o/1".to_string()),
        SubTaskOutcome::Success("/o/2".to_string()),
        SubTaskOutcome::Failure("bad stream".to_string()),
        SubTaskOutcome::Success("/o/4".to_string()),
        SubTaskOutcome::Failure("blocked".to_string()),
    ];
    run_collection(&mut reg, id, &outcomes, None, 9);
    let job = reg.get_job(id).unwrap();
    assert_eq!(job.status, JobStatus::PartiallyCompleted);
    assert_eq!(job.outputs, vec!["/o/1".to_string(), "/o/2".to_string(), "/o/4".to_string()]);
    assert_eq!(job.progress_percent, 100);
    assert_eq!(job.subtasks.len(), 5);
    assert_eq!(job.subtasks[2].status, SubTaskStatus::Failed);
    assert_eq!(job.subtasks[2].error, Some("bad stream".to_string()));
    assert_eq!(job.subtasks[3].status, SubTaskStatus::Completed);
}

#[test]
fn test_collection_all_success_and_all_failure() {
    let mut reg = JobRegistry::new();
    let ok_id = reg.submit_job(collection_spec("l1", 2), 0);
    let outcomes = vec![
        SubTaskOutcome::Success("/a".to_string()),
        SubTaskOutcome::Success("/b".to_string()),
    ];
    run_collection(&mut reg, ok_id, &outcomes, None, 1);
    assert_eq!(reg.get_job(ok_id).unwrap().status, JobStatus::Completed);

    let bad_id = reg.submit_job(collection_spec("l2", 2), 0);
    let outcomes = vec![
        SubTaskOutcome::Failure("x".to_string()),
        SubTaskOutcome::Failure("y".to_string()),
    ];
    run_collection(&mut reg, bad_id, &outcomes, None, 1);
    let job = reg.get_job(bad_id).unwrap();
    assert_eq!(job.status, JobStatus::Failed);
    assert_eq!(job.last_error, Some("x\ny\n".to_string()));
}

#[test]
fn test_collection_cancel_mid_run() {
    // cancelling after two of five members: no further dispatch, the two
    // finished members keep their outcomes, and the parent ends Cancelled
    let mut reg = JobRegistry::new();
    let id = reg.submit_job(collection_spec("list", 2), 0);
    let outcomes = vec![
        SubTaskOutcome::Success("/o/1".to_string()),
        SubTaskOutcome::Failure("e".to_string()),
        SubTaskOutcome::Success("/o/3".to_string()),
        SubTaskOutcome::Success("/o/4".to_string()),
        SubTaskOutcome::Success("/o/5".to_string()),
    ];
    run_collection(&mut reg, id, &outcomes, Some(2), 9);
    let job = reg.get_job(id).unwrap();
    assert_eq!(job.status, JobStatus::Cancelled);
    assert_eq!(job.outputs, vec!["/o/1".to_string()]);
    assert_eq!(job.subtasks[0].status, SubTaskStatus::Completed);
    assert_eq!(job.subtasks[1].status, SubTaskStatus::Failed);
    assert_eq!(job.subtasks[2].status, SubTaskStatus::Cancelled);
    assert_eq!(job.subtasks[3].status, SubTaskStatus::Cancelled);
    assert_eq!(job.subtasks[4].status, SubTaskStatus::Cancelled);
}

#[test]
fn test_collection_without_members_completes() {
    let mut reg = JobRegistry::new();
    let id = reg.submit_job(collection_spec("empty", 1), 0);
    let outcomes: Vec<SubTaskOutcome> = Vec::new();
    run_collection(&mut reg, id, &outcomes, None, 3);
    assert_eq!(reg.get_job(id).unwrap().status, JobStatus::Completed);
}

#[test]
fn test_engine_step_by_step() {
    let mut engine = EscalationEngine::new(vec![strategy("a"), strategy("b")]);
    assert!(matches!(engine.next_step(false), NextStep::Attempt(0)));
    assert!(engine.record_outcome(AttemptOutcome::Failure("nope".to_string())).is_none());
    assert!(matches!(engine.next_step(false), NextStep::Attempt(1)));
    assert!(matches!(engine.next_step(true), NextStep::Abort));
    let done = engine.record_outcome(AttemptOutcome::Success("/p".to_string()));
    assert_eq!(done, Some("/p".to_string()));
    assert_eq!(engine.reasons(), &vec!["nope".to_string()]);
}

#[test]
fn test_start_running_outcomes() {
    let mut reg = JobRegistry::new();
    let id = reg.submit_job(single_spec("t"), 0);
    assert_eq!(reg.start_running(id, 1), StartOutcome::Started);
    assert_eq!(reg.start_running(id, 2), StartOutcome::Unchanged);
    assert_eq!(reg.get_job(id).unwrap().status, JobStatus::Running);
    assert_eq!(reg.start_running(42, 1), StartOutcome::Unchanged);
}

#[test]
fn test_terminal_status_is_never_left() {
    // a terminal job ignores every further mutation attempt
    let mut reg = JobRegistry::new();
    let id = reg.submit_job(single_spec("t"), 0);
    let strategies = vec![strategy("a")];
    let outcomes = vec![AttemptOutcome::Success("/p".to_string())];
    run_single(&mut reg, id, &strategies, &outcomes, 1);
    assert_eq!(reg.get_job(id).unwrap().status, JobStatus::Completed);
    reg.mark_failed(id, "late".to_string(), 2);
    reg.mark_cancelled(id, 3);
    reg.update_progress(id, 10, "late".to_string(), 4);
    assert_eq!(reg.start_running(id, 5), StartOutcome::Unchanged);
    let job = reg.get_job(id).unwrap();
    assert_eq!(job.status, JobStatus::Completed);
    assert_eq!(job.last_error, None);
    assert_eq!(job.progress_percent, 100);
}

#[test]
fn test_progress_is_monotone_while_running() {
    let mut reg = JobRegistry::new();
    let id = reg.submit_job(single_spec("t"), 0);
    reg.start_running(id, 1);
    reg.update_progress(id, 40, "m".to_string(), 2);
    reg.update_progress(id, 20, "m".to_string(), 3);
    assert_eq!(reg.get_job(id).unwrap().progress_percent, 40);
    reg.update_progress(id, 300, "m".to_string(), 4);
    assert_eq!(reg.get_job(id).unwrap().progress_percent, 100);
}
