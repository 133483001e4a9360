//! Scenario tests for the progress bus and the registry's event flow.

use rustify::bus::{Delivery, ProgressBus, ProgressEvent};
use rustify::job::JobSpec;
use rustify::registry::JobRegistry;
use rustify::status::{JobKind, JobStatus};

fn event(n: u32) -> ProgressEvent {
    ProgressEvent {
        job_id: 1,
        status: JobStatus::Running,
        progress_percent: n,
        message: format!("step {}", n),
        emitted_at: n as u64,
    }
}

#[test]
fn test_slow_subscriber_gets_one_lag_marker() {
    // ten events against a buffer of three: one Lagged(7), then the newest
    // three events in order, then nothing
    let mut bus = ProgressBus::new();
    let sub = bus.subscribe(3);
    for n in 0..10 {
        bus.publish(event(n));
    }
    match bus.next_delivery(sub) {
        Some(Delivery::Lagged(n)) => assert_eq!(n, 7),
        other => panic!("expected a lag marker, got {}", kind_of(&other)),
    }
    for expect in 7..10 {
        match bus.next_delivery(sub) {
            Some(Delivery::Event(e)) => assert_eq!(e.progress_percent, expect),
            other => panic!("expected an event, got {}", kind_of(&other)),
        }
    }
    assert!(bus.next_delivery(sub).is_none());
}

#[test]
fn test_active_subscriber_sees_every_event() {
    let mut bus = ProgressBus::new();
    let sub = bus.subscribe(3);
    for n in 0..10 {
        bus.publish(event(n));
        match bus.next_delivery(sub) {
            Some(Delivery::Event(e)) => assert_eq!(e.progress_percent, n),
            other => panic!("expected an event, got {}", kind_of(&other)),
        }
    }
    assert!(bus.next_delivery(sub).is_none());
}

#[test]
fn test_subscribers_are_independent() {
    // a slow subscriber's lag never affects an active one
    let mut bus = ProgressBus::new();
    let slow = bus.subscribe(1);
    let active = bus.subscribe(100);
    for n in 0..5 {
        bus.publish(event(n));
    }
    for n in 0..5 {
        match bus.next_delivery(active) {
            Some(Delivery::Event(e)) => assert_eq!(e.progress_percent, n),
            other => panic!("expected an event, got {}", kind_of(&other)),
        }
    }
    match bus.next_delivery(slow) {
        Some(Delivery::Lagged(n)) => assert_eq!(n, 4),
        other => panic!("expected a lag marker, got {}", kind_of(&other)),
    }
}

#[test]
fn test_no_history_replay_on_subscribe() {
    let mut bus = ProgressBus::new();
    bus.publish(event(0));
    bus.publish(event(1));
    let sub = bus.subscribe(10);
    assert!(bus.next_delivery(sub).is_none());
}

#[test]
fn test_registry_publishes_lifecycle_events() {
    let mut reg = JobRegistry::new();
    let sub = reg.subscribe_progress(16);
    let id = reg.submit_job(
        JobSpec {
            kind: JobKind::Single,
            target: "t".to_string(),
            format: "mp3".to_string(),
            quality_hint: "256".to_string(),
            max_concurrent: 1,
        },
        7,
    );
    reg.start_running(id, 8);
    reg.mark_completed(id, "/out".to_string(), 9);
    let seen: Vec<(JobStatus, u32, String)> = std::iter::from_fn(|| reg.next_event(sub))
        .map(|d| match d {
            Delivery::Event(e) => (e.status, e.progress_percent, e.message),
            Delivery::Lagged(_) => panic!("no lag expected"),
        })
        .collect();
    assert_eq!(
        seen,
        vec![
            (JobStatus::Pending, 0, "queued".to_string()),
            (JobStatus::Running, 0, "started".to_string()),
            (JobStatus::Completed, 100, "completed".to_string()),
        ]
    );
}

fn kind_of(d: &Option<Delivery>) -> &'static str {
    match d {
        None => "nothing",
        Some(Delivery::Event(_)) => "an event",
        Some(Delivery::Lagged(_)) => "a lag marker",
    }
}
