use apm_tracker::model::{KEY_F4, KEY_LALT, KEY_LCONTROL, KEY_Q};
use apm_tracker::tracker::{should_quit, ApmTracker};

const LEFT: u16 = 1;

#[test]
fn fresh_tracker_reports_zero() {
    let t = ApmTracker::new();
    assert_eq!(t.current_apm, 0);
    assert_eq!(t.actions.len(), 0);
    assert!(t.last_mouse_buttons.is_empty());
    assert!(t.last_keys.is_empty());
}

#[test]
fn scenario_press_hold_release_evict() {
    let mut t = ApmTracker::new();
    // Frame 1: left button goes down.
    t.update(vec![LEFT], vec![], 0);
    assert_eq!(t.actions.len(), 1);
    assert_eq!(t.current_apm, 1);
    // Frame 2: unchanged snapshot.
    t.update(vec![LEFT], vec![], 100);
    assert_eq!(t.actions.len(), 1);
    assert_eq!(t.current_apm, 1);
    // Frame 3: button released, a change.
    t.update(vec![], vec![], 200);
    assert_eq!(t.actions.len(), 2);
    assert_eq!(t.current_apm, 2);
    // Frame 4: 61 seconds later, unchanged; both entries leave the window.
    t.update(vec![], vec![], 200 + 61_000);
    assert_eq!(t.actions.len(), 0);
    assert_eq!(t.current_apm, 0);
}

#[test]
fn scenario_quit_on_control_q_transition() {
    let mut t = ApmTracker::new();
    let keys = vec![KEY_LCONTROL, KEY_Q];
    t.update(vec![], keys.clone(), 0);
    assert_eq!(t.current_apm, 1);
    assert!(should_quit(&keys));
}

#[test]
fn unchanged_snapshot_logs_nothing_new() {
    let mut t = ApmTracker::new();
    t.update(vec![LEFT], vec![KEY_Q], 10);
    assert_eq!(t.current_apm, 2);
    t.update(vec![LEFT], vec![KEY_Q], 20);
    assert_eq!(t.current_apm, 2);
    t.update(vec![LEFT], vec![KEY_Q], 30);
    assert_eq!(t.current_apm, 2);
}

#[test]
fn both_devices_changing_count_twice() {
    let mut t = ApmTracker::new();
    t.update(vec![LEFT], vec![KEY_Q], 5);
    assert_eq!(t.current_apm, 2);
    assert_eq!(t.actions, vec![5, 5]);
}

#[test]
fn entry_just_inside_window_is_retained() {
    let mut t = ApmTracker::new();
    t.update(vec![LEFT], vec![], 1_000);
    assert_eq!(t.current_apm, 1);
    // now - 60s + 1ms: still inside the window.
    t.update(vec![LEFT], vec![], 60_999);
    assert_eq!(t.current_apm, 1);
}

#[test]
fn entry_exactly_at_window_boundary_is_removed() {
    let mut t = ApmTracker::new();
    t.update(vec![LEFT], vec![], 1_000);
    t.update(vec![LEFT], vec![], 61_000);
    assert_eq!(t.current_apm, 0);
}

#[test]
fn entry_just_outside_window_is_removed() {
    let mut t = ApmTracker::new();
    t.update(vec![LEFT], vec![], 1_000);
    t.update(vec![LEFT], vec![], 61_001);
    assert_eq!(t.current_apm, 0);
}

#[test]
fn snapshots_compare_as_sets() {
    let mut t = ApmTracker::new();
    t.update(vec![], vec![3, 5], 0);
    assert_eq!(t.current_apm, 1);
    // Same keys in another order: no transition.
    t.update(vec![], vec![5, 3], 10);
    assert_eq!(t.current_apm, 1);
    // Same keys with a repeated code: still no transition.
    t.update(vec![], vec![5, 3, 5], 20);
    assert_eq!(t.current_apm, 1);
    // A genuinely new key: one transition.
    t.update(vec![], vec![5, 3, 7], 30);
    assert_eq!(t.current_apm, 2);
}

#[test]
fn rate_counts_transitions_in_trailing_window() {
    let mut t = ApmTracker::new();
    t.update(vec![LEFT], vec![], 0);
    t.update(vec![], vec![], 10);
    t.update(vec![LEFT], vec![], 20);
    assert_eq!(t.current_apm, 3);
    // At 60_015 the entries stamped 0 and 10 have left the window; the
    // one stamped 20 remains, and the release below adds one more.
    t.update(vec![], vec![], 60_015);
    assert_eq!(t.current_apm, 2);
    assert_eq!(t.actions, vec![20, 60_015]);
}

#[test]
fn quit_needs_a_full_chord() {
    assert!(!should_quit(&vec![]));
    assert!(!should_quit(&vec![KEY_LCONTROL]));
    assert!(!should_quit(&vec![KEY_Q]));
    assert!(!should_quit(&vec![KEY_LALT]));
    assert!(!should_quit(&vec![KEY_F4]));
    assert!(!should_quit(&vec![KEY_LCONTROL, KEY_F4]));
    assert!(!should_quit(&vec![KEY_LALT, KEY_Q]));
}

#[test]
fn quit_holds_on_either_chord_and_any_superset() {
    assert!(should_quit(&vec![KEY_LCONTROL, KEY_Q]));
    assert!(should_quit(&vec![KEY_Q, KEY_LCONTROL]));
    assert!(should_quit(&vec![KEY_LALT, KEY_F4]));
    assert!(should_quit(&vec![9, KEY_LCONTROL, 77, KEY_Q]));
    assert!(should_quit(&vec![KEY_F4, 2, KEY_LALT]));
}

#[test]
fn large_timestamps_do_not_overflow() {
    let mut t = ApmTracker::new();
    t.update(vec![LEFT], vec![], u64::MAX - 1);
    assert_eq!(t.current_apm, 1);
    t.update(vec![LEFT], vec![], u64::MAX);
    assert_eq!(t.current_apm, 1);
}
