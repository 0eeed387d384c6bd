//! Change detection, the session slot, and the discovery status
//! trackers.

use wincc_debug_proxy::catalog::DebugTarget;
use wincc_debug_proxy::discovery::{
    check_target_change, relay_target, ConnectAdvice, ConnectivityWatcher, DiscoveryStatus,
    FailureReport, SessionSlot, TargetChange,
};

fn target(title: &str, ws_url: &str) -> DebugTarget {
    DebugTarget {
        description: String::new(),
        devtools_frontend_url: String::new(),
        id: String::new(),
        title: title.to_string(),
        target_type: "page".to_string(),
        url: String::new(),
        web_socket_debugger_url: ws_url.to_string(),
    }
}

#[test]
fn detect_initial_when_no_path_yet() {
    let r = check_target_change(Some((target("VCS_3 Dynamics", "ws://h:1/page/AAA"), 3)), &None);
    assert!(matches!(r, TargetChange::Initial { ref path, vcs: 3 } if path == "AAA"));
}

#[test]
fn detect_unchanged_on_same_path() {
    let current = Some("AAA".to_string());
    let r = check_target_change(
        Some((target("VCS_3 Dynamics", "ws://h:1/page/AAA"), 3)),
        &current,
    );
    assert!(matches!(r, TargetChange::Unchanged { vcs: 3 }));
}

#[test]
fn detect_changed_on_new_path() {
    let current = Some("AAA".to_string());
    let r = check_target_change(
        Some((target("VCS_4 Dynamics", "ws://h:1/page/BBB"), 4)),
        &current,
    );
    match r {
        TargetChange::Changed { old_path, new_path, vcs } => {
            assert_eq!(old_path, "AAA");
            assert_eq!(new_path, "BBB");
            assert_eq!(vcs, 4);
        }
        other => panic!("expected a change, got {:?}", other),
    }
}

#[test]
fn detect_empty_token_is_unchanged() {
    let r = check_target_change(Some((target("VCS_3 Dynamics", "ws://h:1/page/"), 3)), &None);
    assert!(matches!(r, TargetChange::Unchanged { vcs: 3 }));
}

#[test]
fn detect_no_selection_is_unchanged_with_zero() {
    let r = check_target_change(None, &Some("AAA".to_string()));
    assert!(matches!(r, TargetChange::Unchanged { vcs: 0 }));
}

#[test]
fn detect_is_idempotent_after_applying_the_outcome() {
    let mut slot = SessionSlot::new();
    let selection = Some((target("VCS_3 Dynamics", "ws://h:1/page/AAA"), 3));
    let first = check_target_change(selection, &slot.active_path);
    assert!(matches!(first, TargetChange::Initial { .. }));
    let restart = slot.apply_change(first);
    assert!(restart.is_none());
    let selection_again = Some((target("VCS_3 Dynamics", "ws://h:1/page/AAA"), 3));
    let second = check_target_change(selection_again, &slot.active_path);
    assert!(matches!(second, TargetChange::Unchanged { .. }));
}

#[test]
fn changed_outcome_defers_the_path_swap_to_the_restart() {
    let mut slot = SessionSlot::new();
    slot.active_path = Some("AAA".to_string());
    slot.highest_version = 3;
    let change = TargetChange::Changed {
        old_path: "AAA".to_string(),
        new_path: "BBB".to_string(),
        vcs: 4,
    };
    let restart = slot.apply_change(change);
    assert_eq!(restart, Some(("AAA".to_string(), "BBB".to_string())));
    assert_eq!(slot.active_path, Some("AAA".to_string()));
    assert_eq!(slot.highest_version, 4);
}

#[test]
fn failure_streak_reports_first_then_every_fifth() {
    let mut status = DiscoveryStatus::new();
    assert_eq!(status.record_failure(), FailureReport::FirstFailure);
    assert_eq!(status.record_failure(), FailureReport::Quiet);
    assert_eq!(status.record_failure(), FailureReport::Quiet);
    assert_eq!(status.record_failure(), FailureReport::Quiet);
    assert_eq!(status.record_failure(), FailureReport::Periodic);
    assert_eq!(status.record_failure(), FailureReport::Quiet);
    assert_eq!(status.consecutive_failures, 6);
    assert!(!status.target_available);
}

#[test]
fn success_resets_the_streak_and_reports_recovery() {
    let mut status = DiscoveryStatus::new();
    let (back_online, newly_connected) = status.record_success();
    assert!(!back_online);
    assert!(newly_connected);
    status.record_failure();
    let (back_online, newly_connected) = status.record_success();
    assert!(back_online);
    assert!(newly_connected);
    assert_eq!(status.consecutive_failures, 0);
    assert!(status.target_available);
}

#[test]
fn relay_refuses_until_a_target_path_exists() {
    let mut slot = SessionSlot::new();
    assert_eq!(relay_target(&slot), None);
    slot.active_path = Some("AAA".to_string());
    assert_eq!(relay_target(&slot), Some("AAA".to_string()));
}

#[test]
fn watcher_shows_the_diagnostic_once() {
    let mut watcher = ConnectivityWatcher::new();
    assert_eq!(watcher.on_attempt(false), ConnectAdvice::DiagnoseAndRetry);
    assert_eq!(watcher.on_attempt(false), ConnectAdvice::RetryQuietly);
    assert_eq!(watcher.on_attempt(false), ConnectAdvice::RetryQuietly);
    assert_eq!(watcher.on_attempt(true), ConnectAdvice::Proceed);
}
