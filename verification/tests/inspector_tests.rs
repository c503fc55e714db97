use core_engine::inspector::{InspectorConfig, InspectorState, TrafficInspector};
use core_engine::CoreError;

#[test]
fn test_inspector_creation() {
    let inspector = TrafficInspector::default_inspector();
    assert_eq!(inspector.active_request_count(), 0);
}

#[test]
fn test_request_tracking() {
    let mut inspector = TrafficInspector::default_inspector();

    // Test request counting
    inspector.request_started();
    assert_eq!(inspector.active_request_count(), 1);

    inspector.request_started();
    assert_eq!(inspector.active_request_count(), 2);

    inspector.request_finished();
    assert_eq!(inspector.active_request_count(), 1);

    inspector.request_finished();
    assert_eq!(inspector.active_request_count(), 0);

    // Test network idle detection
    assert!(inspector.is_network_idle());
}

#[test]
fn test_dom_mutation() {
    let mut inspector = TrafficInspector::default_inspector();

    inspector.dom_mutated();
    let state = inspector.get_state();

    assert!(state.last_mutation.is_some());
}

#[test]
fn test_mark_ready() {
    let mut inspector = TrafficInspector::default_inspector();

    inspector.mark_ready();
    let state = inspector.get_state();

    assert!(state.is_ready);
}

#[test]
fn default_state_and_config() {
    let s = InspectorState::default();
    assert_eq!(s.active_requests, 0);
    assert!(!s.is_ready);
    assert!(s.last_mutation.is_none() && s.url.is_none() && s.title.is_none());
    let c = InspectorConfig::default();
    assert_eq!(
        (c.dom_idle_threshold_ms, c.network_idle_threshold_ms, c.max_wait_time_ms, c.network_poll_interval_ms),
        (500, 1000, 30_000, 100)
    );
}

#[test]
fn last_request_finishing_readies_unmutated_page() {
    let mut inspector = TrafficInspector::default_inspector();
    inspector.request_started();
    assert!(!inspector.get_state().is_ready);
    inspector.request_finished_at(5);
    let s = inspector.get_state();
    assert_eq!(s.active_requests, 0);
    assert!(s.is_ready);
}

#[test]
fn quiet_dom_threshold_decides_readiness() {
    let mut inspector = TrafficInspector::default_inspector();
    inspector.dom_mutated_at(1_000);
    inspector.request_started();
    // 499 ms after the mutation: still settling.
    inspector.request_finished_at(1_000 + 499_999_999);
    assert!(!inspector.get_state().is_ready);
    inspector.request_started();
    // Exactly 500 ms after: ready.
    inspector.request_finished_at(1_000 + 500_000_000);
    assert!(inspector.get_state().is_ready);
}

#[test]
fn busy_inspector_does_not_become_ready() {
    let mut inspector = TrafficInspector::default_inspector();
    inspector.request_started();
    inspector.request_started();
    inspector.request_finished_at(10);
    assert!(!inspector.get_state().is_ready);
    assert_eq!(inspector.get_state().active_requests, 1);
}

#[test]
fn finishing_with_nothing_active_keeps_the_counter_at_zero() {
    let mut inspector = TrafficInspector::default_inspector();
    inspector.request_finished_at(0);
    assert_eq!(inspector.active_request_count(), 0);
    assert_eq!(inspector.get_state().active_requests, 0);
    assert!(inspector.is_network_idle());
    inspector.request_started();
    assert_eq!(inspector.active_request_count(), 1);
    inspector.request_finished_at(0);
    assert!(inspector.is_network_idle());
}

#[test]
fn request_failed_counts_as_finished() {
    let mut inspector = TrafficInspector::default_inspector();
    inspector.request_started();
    inspector.request_failed_at(1);
    assert_eq!(inspector.active_request_count(), 0);
    inspector.request_started();
    inspector.request_failed();
    assert_eq!(inspector.active_request_count(), 0);
}

#[test]
fn page_info_and_navigation() {
    let mut inspector = TrafficInspector::default_inspector();
    inspector.set_page_info(Some("https://a.test".to_string()), Some("A".to_string()));
    inspector.set_page_info(None, Some("B".to_string()));
    let s = inspector.get_state();
    assert_eq!(s.url.as_deref(), Some("https://a.test"));
    assert_eq!(s.title.as_deref(), Some("B"));
    inspector.request_started();
    inspector.on_navigate_at("https://b.test", 77);
    let s = inspector.get_state();
    assert_eq!(s.url.as_deref(), Some("https://b.test"));
    assert_eq!(s.title.as_deref(), Some("B"));
    assert_eq!(s.last_mutation, Some(77));
    assert_eq!(inspector.active_request_count(), 0);
    assert!(!s.is_ready);
    inspector.on_navigate("https://c.test");
    assert_eq!(inspector.get_state().url.as_deref(), Some("https://c.test"));
}

#[test]
fn reset_forgets_page() {
    let mut inspector = TrafficInspector::default_inspector();
    inspector.set_page_info(Some("u".to_string()), Some("t".to_string()));
    inspector.request_started();
    inspector.mark_ready();
    inspector.reset_at(3);
    let s = inspector.get_state();
    assert!(s.url.is_none() && s.title.is_none() && !s.is_ready);
    assert_eq!(s.last_mutation, Some(3));
    assert_eq!(inspector.active_request_count(), 0);
    inspector.reset();
    assert!(inspector.get_state().last_mutation.is_some());
}

#[test]
fn polling_for_readiness() {
    let mut inspector = TrafficInspector::default_inspector();
    // Never mutated and idle: ready at once.
    match inspector.poll_ready_at(0, 0) {
        Some(Ok(s)) => assert!(s.is_ready),
        _ => panic!("expected the ready state"),
    }
    inspector.dom_mutated_at(100);
    // Too early and within the wait: keep waiting.
    assert!(inspector.poll_ready_at(200, 100).is_none());
    // Quiet long enough: ready.
    assert!(matches!(inspector.poll_ready_at(100 + 500_000_000, 100), Some(Ok(_))));
    inspector.request_started();
    // Busy past the maximum wait: timeout.
    match inspector.poll_ready_at(31_000_000_000, 0) {
        Some(Err(CoreError::Inspector(m))) => assert_eq!(m, "Timeout waiting for page ready"),
        _ => panic!("expected a timeout"),
    }
    assert!(inspector.poll_ready_at(30_000_000_000, 0).is_none());
}

#[test]
fn clock_moves_forward() {
    let inspector = TrafficInspector::default_inspector();
    let a = inspector.now_ns();
    let b = inspector.now_ns();
    assert!(b >= a);
    let mut inspector = inspector;
    let started = inspector.now_ns();
    assert!(matches!(inspector.poll_ready(started), Some(Ok(_))));
}
