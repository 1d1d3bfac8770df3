//! The queue of readings.
use noending::commands::ingestion::{
    run_scope, IngestScope, IngestionCoordinator, ScopeRun, FRESHNESS_MS,
};

#[test]
fn an_already_queued_scope_does_not_request_another_worker() {
    let mut coordinator = IngestionCoordinator::default();
    coordinator.running = true;
    coordinator.queue.push(IngestScope::ReconcileAll);

    assert!(!coordinator.enqueue(IngestScope::ReconcileAll));
}

#[test]
fn only_a_complete_full_reconcile_advances_freshness() {
    let mut coordinator = IngestionCoordinator::default();
    coordinator.finish(0, 0, None, false, "2026-01-01T00:00:00Z", 10);
    assert!(
        coordinator.is_stale(10),
        "a session refresh is not a full pass"
    );

    coordinator.finish(0, 0, Some("partial failure".into()), true, "2026-01-01T00:00:00Z", 10);
    assert!(
        coordinator.is_stale(10),
        "partial failures must remain retryable"
    );

    coordinator.finish(0, 0, None, true, "2026-01-01T00:00:00Z", 10);
    assert!(!coordinator.is_stale(10));
}

#[test]
fn a_full_reading_goes_stale_after_five_minutes() {
    let mut coordinator = IngestionCoordinator::default();
    assert!(coordinator.is_stale(0));
    coordinator.finish(0, 0, None, true, "t", 1000);
    assert!(!coordinator.is_stale(1000 + FRESHNESS_MS - 1));
    assert!(coordinator.is_stale(1000 + FRESHNESS_MS));
}

#[test]
fn a_full_reading_takes_the_place_of_partial_ones() {
    let mut c = IngestionCoordinator::default();
    assert!(c.enqueue(IngestScope::ReconcileSource("a".to_string())));
    assert!(!c.enqueue(IngestScope::RefreshSession("b".to_string())));
    assert!(!c.enqueue(IngestScope::ReingestSource("c".to_string())));
    assert!(!c.enqueue(IngestScope::ReconcileAll));
    let labels: Vec<String> = c.queue.iter().map(|s| s.label()).collect();
    assert_eq!(labels, vec!["reingest_source:c", "reconcile_all"]);
}

#[test]
fn tasks_are_done_in_order_until_none_is_left() {
    let mut c = IngestionCoordinator::default();
    assert!(c.enqueue(IngestScope::RefreshSession("s".to_string())));
    c.enqueue(IngestScope::ReconcileSource("x".to_string()));
    let first = c.next("now").unwrap();
    assert_eq!(first.label(), "refresh_session:s");
    let status = c.status().unwrap();
    assert_eq!(status.scope, "refresh_session:s");
    assert_eq!(status.started_at.as_deref(), Some("now"));
    c.finish(1, 2, Some("e".to_string()), false, "later", 5);
    let status = c.status().unwrap();
    assert_eq!(status.finished_at.as_deref(), Some("later"));
    assert_eq!(status.discovered, 1);
    assert_eq!(status.messages, 2);
    assert_eq!(status.error.as_deref(), Some("e"));
    assert_eq!(c.next("now").unwrap().label(), "reconcile_source:x");
    assert!(c.next("now").is_none());
    assert!(!c.running);
}

#[test]
fn coming_back_reads_only_what_is_stale() {
    let mut c = IngestionCoordinator::default();
    assert_eq!(c.app_foreground(0), (true, true));
    assert_eq!(c.queue.len(), 1);
    let mut fresh = IngestionCoordinator::default();
    fresh.finish(0, 0, None, true, "t", 100);
    assert_eq!(fresh.app_foreground(200).0, false);
    assert!(fresh.queue.is_empty());
}

#[test]
fn what_a_task_came_to_is_told() {
    let report = ScopeRun::Report {
        discovered: 3,
        messages: 7,
        failures: vec!["a".to_string(), "b".to_string()],
    };
    let (d, m, e) = run_scope(&report);
    assert_eq!((d, m), (3, 7));
    assert!(e.unwrap().contains("a"));
    assert_eq!(run_scope(&ScopeRun::NoSource), (0, 0, None));
    assert_eq!(run_scope(&ScopeRun::Session { messages: 4 }), (0, 4, None));
    assert_eq!(
        run_scope(&ScopeRun::Failed { error: "boom".to_string() }),
        (0, 0, Some("boom".to_string()))
    );
}
