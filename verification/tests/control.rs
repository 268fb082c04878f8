use cmux_herdr::control::{FocusController, PaneSeedQueue};

#[test]
fn focus_rejection_restores_previous_pane() {
    let mut focus = FocusController {
        live_pane_ids: vec!["p1".into(), "p2".into()],
        active_pane_id: Some("p1".into()),
        ..FocusController::default()
    };
    let sent = focus.user_select("p2");
    let rolled = focus.command_rejected(sent.request_id.as_deref().unwrap());
    assert!(rolled.rolled_back);
    assert_eq!(focus.active_pane_id.as_deref(), Some("p1"));
}

#[test]
fn seed_overflow_never_queues_a_truncated_snapshot() {
    let mut seed = PaneSeedQueue::with_budget(4);
    assert_eq!(seed.queue("p", b"12345", "full", None), "overflow");
    assert!(seed.pending_for("p").is_none());
    assert!(seed.is_deferred("p"));
}

#[test]
fn seed_within_budget_is_pending() {
    let mut seed = PaneSeedQueue::with_budget(8);
    assert_ne!(seed.queue("p", b"1234", "full", None), "overflow");
    assert_eq!(seed.pending_for("p"), Some(b"1234".to_vec()));
    assert!(!seed.is_deferred("p"));
}

#[test]
fn confirmed_focus_keeps_new_pane() {
    let mut focus = FocusController {
        live_pane_ids: vec!["p1".into(), "p2".into()],
        active_pane_id: Some("p1".into()),
        ..FocusController::default()
    };
    let sent = focus.user_select("p2");
    assert!(sent.send_to_provider);
    focus.provider_confirms("p2");
    assert_eq!(focus.active_pane_id.as_deref(), Some("p2"));
}
