use cmux_herdr::lifecycle::{LifecycleController, LifecycleEvent, LifecycleReply};
use cmux_herdr::lifecycle::{
    connection_action, endpoint_hash, existing_mirror_window, grid_match, has_hidden_character,
    host_close_policy, may_cache_connection, note_output, plan_attach, plan_restore,
    post_attach_action, purge_dead_mirrors, validate_session_name, validate_socket_path,
    AttachRegistry, AttachWindowTarget, ConnectionRecord, DiscoveredSession, MirrorRecord,
    RestoreRecord,
};

fn sessions(ids: &[&str]) -> Vec<DiscoveredSession> {
    ids.iter().map(|id| DiscoveredSession::new(id, id, 1, false)).collect()
}

fn live() -> Vec<String> {
    vec!["win-active".to_string()]
}

fn contextual() -> AttachWindowTarget {
    AttachWindowTarget::new("contextual", None)
}

#[test]
fn endpoint_hash_is_short_sha256() {
    assert_eq!(endpoint_hash("/tmp/herdr.sock"), "0cb0c5e4a7465217");
}

#[test]
fn socket_path_validation() {
    assert_eq!(validate_socket_path(Some(" /tmp/x.sock ")).as_deref(), Some("/tmp/x.sock"));
    assert_eq!(validate_socket_path(Some("relative.sock")), None);
    assert_eq!(validate_socket_path(Some("/a\u{7}b")), None);
    assert_eq!(validate_socket_path(Some("/a\u{85}b")), None);
    assert_eq!(validate_socket_path(Some("   ")), None);
    assert_eq!(validate_socket_path(None), None);
    assert!(has_hidden_character("x\u{9f}"));
    assert!(!has_hidden_character("plain é"));
}

#[test]
fn session_name_validation() {
    assert_eq!(validate_session_name(Some(" main ")).as_deref(), Some("main"));
    assert_eq!(validate_session_name(Some("  ")), None);
    assert_eq!(validate_session_name(None), None);
}

#[test]
fn host_close_never_stops_the_provider() {
    for source in ["last_workspace_tab", "window_quit", "app_terminate", "explicit_detach", "host_tab", "host_panel"] {
        assert_eq!(host_close_policy(source), "detach");
    }
    assert_eq!(host_close_policy("server_stop"), "noop");
}

#[test]
fn connection_policies() {
    let mut c = ConnectionRecord::started("s");
    assert!(may_cache_connection(&c));
    assert_eq!(connection_action(Some(&c)), "reuse");
    c.exited = true;
    assert!(!may_cache_connection(&c));
    assert_eq!(connection_action(Some(&c)), "replace");
    assert_eq!(connection_action(None), "start");
    assert_eq!(post_attach_action(true), "reseed");
    assert_eq!(post_attach_action(false), "apply_client_size");
    assert!(!may_cache_connection(&ConnectionRecord::new("s")));
}

#[test]
fn attach_preconditions_fail_in_order() {
    let t = contextual();
    let plan = plan_attach(&t, false, false, true, None, None, &live(), None, None, None, true, None);
    assert_eq!(plan.outcome, "disabled");
    assert_eq!(plan.reason.as_deref(), Some("beta_disabled"));
    let plan = plan_attach(&t, true, false, true, None, None, &live(), None, None, None, true, None);
    assert_eq!(plan.outcome, "unreachable");
    let plan = plan_attach(&t, true, true, true, None, None, &live(), None, None, None, true, None);
    assert_eq!(plan.outcome, "already_attaching");
    let plan = plan_attach(&t, true, true, false, None, None, &live(), None, None, None, true, None);
    assert_eq!(plan.outcome, "invalid_target");
    assert_eq!(plan.reason.as_deref(), Some("window_unresolved"));
    let plan = plan_attach(&t, true, true, false, None, Some("win-active"), &live(), None, None, None, true, None);
    assert_eq!(plan.outcome, "discover");
    let none = sessions(&[]);
    let plan = plan_attach(&t, true, true, false, None, Some("win-active"), &live(), Some(&none), None, None, true, None);
    assert_eq!(plan.outcome, "no_sessions");
}

#[test]
fn attach_mirrors_new_sessions_into_the_active_window() {
    let ss = sessions(&["a", "b"]);
    let plan = plan_attach(&contextual(), true, true, false, None, Some("win-active"), &live(), Some(&ss), None, None, true, None);
    assert_eq!(plan.outcome, "mirrored");
    assert_eq!(plan.window_id.as_deref(), Some("win-active"));
    assert_eq!(plan.sessions_to_mirror, vec!["a", "b"]);
    assert!(plan.sessions_to_reuse.is_empty());
    assert_eq!(plan.post_attach.as_deref(), Some("apply_client_size"));
    assert!(plan.activate);
}

#[test]
fn attach_reuses_live_connections_and_reseeds_over_dead_mirrors() {
    let ss = sessions(&["a"]);
    let live_ids = vec!["a".to_string()];
    let plan = plan_attach(&contextual(), true, true, false, None, Some("win-active"), &live(), Some(&ss), None, Some(&live_ids), false, None);
    assert_eq!(plan.outcome, "reused");
    assert_eq!(plan.sessions_to_reuse, vec!["a"]);
    assert_eq!(plan.post_attach, None);
    let mirrors = vec![MirrorRecord::new("a", "win-active", None)];
    let plan = plan_attach(&contextual(), true, true, false, None, Some("win-active"), &live(), Some(&ss), Some(&mirrors), Some(&live_ids), false, None);
    assert_eq!(plan.outcome, "mirrored");
    assert_eq!(plan.sessions_to_mirror, vec!["a"]);
    assert_eq!(plan.purge_session_ids, vec!["a"]);
    assert_eq!(plan.post_attach.as_deref(), Some("reseed"));
}

#[test]
fn dedicated_window_moves_live_workspaces() {
    let ss = sessions(&["a"]);
    let mirrors = vec![
        MirrorRecord::new("x", "win-active", Some("ws-x".into())),
        MirrorRecord::new("y", "win-active", None),
    ];
    let t = AttachWindowTarget::new("dedicated_new_window", None);
    let plan = plan_attach(&t, true, true, false, None, None, &live(), Some(&ss), Some(&mirrors), None, true, None);
    assert!(plan.create_window);
    assert!(plan.discard_window_on_fail);
    assert_eq!(plan.window_id, None);
    assert_eq!(plan.move_workspace_ids, vec!["ws-x"]);
    let empty: Vec<String> = Vec::new();
    let plan = plan_attach(&t, true, true, false, None, None, &live(), Some(&ss), Some(&mirrors), None, true, Some(&empty));
    assert_eq!(plan.outcome, "failed_empty");
    assert_eq!(plan.purge_session_ids, vec!["y"]);
}

#[test]
fn existing_live_mirror_window_wins() {
    let t = AttachWindowTarget::new("explicit", Some("other".into()));
    let ws = vec!["win-active".to_string(), "other".to_string()];
    assert_eq!(t.resolve(Some("win-active"), None, &ws).as_deref(), Some("win-active"));
    assert_eq!(t.resolve(Some("gone"), None, &ws).as_deref(), Some("other"));
    let u = AttachWindowTarget::new("unresolved_explicit", None);
    assert_eq!(u.resolve(None, Some("other"), &ws), None);
}

#[test]
fn restore_always_reattaches() {
    let record = RestoreRecord::new("h", "/tmp/herdr.sock", vec!["a".into()], "contextual", None);
    let ss = sessions(&["a", "b"]);
    let plan = plan_restore(&record, true, true, &ss, &live(), Some("win-active"));
    assert_eq!(plan.outcome, "mirrored");
    assert_eq!(plan.post_attach.as_deref(), Some("reseed"));
    assert_eq!(plan.reason.as_deref(), Some("restore_reattach"));
    assert_eq!(plan.sessions_to_mirror, vec!["a", "b"]);
    let plan = plan_restore(&record, false, true, &ss, &live(), Some("win-active"));
    assert_eq!(plan.outcome, "disabled");
}

#[test]
fn registry_blocks_reentrant_attach() {
    let mut r = AttachRegistry::new();
    assert!(r.begin_attach("e"));
    assert!(!r.begin_attach("e"));
    assert!(r.is_attaching("e"));
    r.end_attach("e");
    assert!(!r.is_attaching("e"));
}

#[test]
fn mirror_queries() {
    let mirrors = vec![
        MirrorRecord::new("a", "gone", Some("ws-a".into())),
        MirrorRecord::new("b", "win-active", None),
        MirrorRecord::new("c", "win-active", Some("ws-c".into())),
    ];
    assert_eq!(existing_mirror_window(&mirrors, &live()).as_deref(), Some("win-active"));
    let kept = purge_dead_mirrors(&mirrors);
    assert_eq!(kept.len(), 2);
    assert_eq!(kept[1].session_id, "c");
}

#[test]
fn grid_match_exact_and_at_least() {
    assert!(grid_match(80, 24, 80, 24, true, true));
    assert!(!grid_match(80, 24, 81, 24, true, true));
    assert!(grid_match(80, 24, 81, 25, false, false));
    assert!(!grid_match(80, 24, 79, 25, false, false));
}

#[test]
fn output_accounting_keeps_recent_events() {
    let mut c = ConnectionRecord::started("s");
    for _ in 0..40 {
        note_output(&mut c, "p1", 3);
    }
    note_output(&mut c, "p2", 5);
    assert_eq!(c.total_output_bytes, 125);
    assert_eq!(c.recent_events.len(), 32);
    assert_eq!(c.recent_events[31], "output pane=p2 bytes=5");
    let p1 = c.pane_output_bytes.iter().find(|(k, _)| k == "p1").unwrap().1;
    assert_eq!(p1, 120);
}

#[test]
fn controller_attach_then_detach_and_close() {
    let mut c = LifecycleController::new(true, true);
    let r = c.attach("/tmp/herdr.sock", &sessions(&["b", "a"]), &contextual(), true);
    match r {
        LifecycleReply::Attached { outcome, window_id, workspace_ids, post_attach, server_stopped, reattached } => {
            assert_eq!(outcome, "mirrored");
            assert_eq!(window_id.as_deref(), Some("win-active"));
            assert_eq!(workspace_ids, vec!["ws-b".to_string(), "ws-a".to_string()]);
            assert_eq!(post_attach.as_deref(), Some("apply_client_size"));
            assert!(!server_stopped);
            assert!(!reattached);
        }
        other => panic!("unexpected {:?}", other),
    }
    assert!(matches!(c.events.last(), Some(LifecycleEvent::AttachOk { session_count: 2, .. })));
    assert!(c.state("a").is_some());
    let persisted = c.persist.as_ref().unwrap();
    assert_eq!(persisted.endpoint_hash, "0cb0c5e4a7465217");
    assert_eq!(persisted.session_ids, vec!["b".to_string(), "a".to_string()]);

    let d = c.detach("a", "user");
    assert!(matches!(d, LifecycleReply::Detached { ref session, ref reason } if session == "a" && reason == "user"));
    assert!(c.state("a").is_none());
    assert!(c.state("b").is_some());

    let closed = c.close_host("window_quit");
    assert!(matches!(closed, LifecycleReply::HostClosed { detached: Some(1) }));
    assert!(c.mirrors.is_empty());
    assert!(!c.server_stopped);
    assert!(matches!(c.close_host("server_stop"), LifecycleReply::HostClosed { detached: None }));
}

#[test]
fn controller_refuses_when_disabled_and_restores_as_reattach() {
    let mut off = LifecycleController::new(false, true);
    let r = off.attach("/tmp/x.sock", &sessions(&["a"]), &contextual(), true);
    assert!(matches!(r, LifecycleReply::Refused { ref outcome, ref reason }
        if outcome == "disabled" && reason.as_deref() == Some("beta_disabled")));
    assert!(matches!(off.events.last(), Some(LifecycleEvent::AttachReject { .. })));
    assert!(matches!(off.detach("a", "user"), LifecycleReply::Refused { .. }));
    assert!(matches!(off.restore(&sessions(&["a"])), LifecycleReply::NoPersist));

    let mut c = LifecycleController::new(true, true);
    let _ = c.attach("/tmp/x.sock", &sessions(&["a"]), &contextual(), true);
    let _ = c.detach("a", "user");
    let r = c.restore(&sessions(&["a"]));
    match r {
        LifecycleReply::Attached { post_attach, reattached, .. } => {
            assert_eq!(post_attach.as_deref(), Some("reseed"));
            assert!(reattached);
        }
        other => panic!("unexpected {:?}", other),
    }
    assert!(matches!(c.events.last(), Some(LifecycleEvent::Restored { outcome }) if outcome == "mirrored"));
}

#[test]
fn controller_dedicated_window_is_created_once_per_attach() {
    let mut c = LifecycleController::new(true, true);
    let t = AttachWindowTarget::new("dedicated_new_window", None);
    let r = c.attach("/tmp/x.sock", &sessions(&["a"]), &t, false);
    assert!(matches!(r, LifecycleReply::Attached { ref window_id, .. } if window_id.as_deref() == Some("win-new-1")));
    assert_eq!(c.live_windows, vec!["win-active".to_string(), "win-new-1".to_string()]);
    assert_eq!(c.active_window_id.as_deref(), Some("win-active"));
    assert_eq!(c.window_seq, 1);
}
