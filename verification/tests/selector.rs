//! Version extraction and best-target selection.

use wincc_debug_proxy::catalog::{extract_vcs_number, select_best_target, DebugTarget};

fn target(title: &str, ws_url: &str) -> DebugTarget {
    DebugTarget {
        description: String::new(),
        devtools_frontend_url: String::new(),
        id: String::new(),
        title: title.to_string(),
        target_type: "page".to_string(),
        url: String::new(),
        web_socket_debugger_url: ws_url.to_string(),
    }
}

#[test]
fn extract_version_from_marker() {
    assert_eq!(extract_vcs_number("... VCS_8 ..."), Some(8));
}

#[test]
fn extract_version_typical_title() {
    assert_eq!(extract_vcs_number(" @localhost VCS_8 Dynamics"), Some(8));
}

#[test]
fn extract_version_no_marker() {
    assert_eq!(extract_vcs_number("no marker here"), None);
}

#[test]
fn extract_version_marker_without_digits() {
    assert_eq!(extract_vcs_number("VCS_ end"), None);
}

#[test]
fn extract_version_uses_first_marker() {
    assert_eq!(extract_vcs_number("a VCS_12 b VCS_99"), Some(12));
}

#[test]
fn extract_version_overflow_is_none() {
    assert_eq!(extract_vcs_number("VCS_99999999999"), None);
}

#[test]
fn extract_version_digits_stop_at_non_digit() {
    assert_eq!(extract_vcs_number("VCS_42x7"), Some(42));
}

#[test]
fn select_empty_is_none() {
    let candidates: Vec<DebugTarget> = Vec::new();
    assert!(select_best_target(&candidates, 0).is_none());
}

#[test]
fn select_picks_highest_version() {
    let candidates = vec![
        target("VCS_3 Dynamics", "ws://h/a"),
        target("VCS_7 Dynamics", "ws://h/b"),
        target("VCS_5 Dynamics", "ws://h/c"),
    ];
    let (best, highest) = select_best_target(&candidates, 0).unwrap();
    assert_eq!(best.title, "VCS_7 Dynamics");
    assert_eq!(highest, 7);
}

#[test]
fn select_tie_prefers_last_in_input_order() {
    let candidates = vec![
        target("VCS_5 Dynamics first", "ws://h/a"),
        target("VCS_5 Dynamics second", "ws://h/b"),
        target("VCS_2 Dynamics", "ws://h/c"),
    ];
    let (best, _) = select_best_target(&candidates, 0).unwrap();
    assert_eq!(best.title, "VCS_5 Dynamics second");
}

#[test]
fn select_never_lowers_the_ratchet() {
    let candidates = vec![target("VCS_3 Dynamics", "ws://h/a")];
    let (_, highest) = select_best_target(&candidates, 10).unwrap();
    assert_eq!(highest, 10);
}

#[test]
fn ratchet_is_non_decreasing_over_a_call_sequence() {
    let polls: Vec<Vec<DebugTarget>> = vec![
        vec![target("VCS_4 Dynamics", "ws://h/a")],
        vec![target("VCS_2 Dynamics", "ws://h/b")],
        vec![target("VCS_9 Dynamics", "ws://h/c")],
        vec![target("no marker", "ws://h/d")],
    ];
    let mut highest: u32 = 0;
    let mut seen: Vec<u32> = vec![highest];
    for poll in &polls {
        let (_, h) = select_best_target(poll, highest).unwrap();
        highest = h;
        seen.push(h);
    }
    for w in seen.windows(2) {
        assert!(w[0] <= w[1]);
    }
    assert_eq!(highest, 9);
}
