use cmux_herdr::engine::HerdrWindow;
use cmux_herdr::json::Json;
use cmux_herdr::layout::{LayoutNode, LayoutRect};
use cmux_herdr::lifecycle::{DiscoveredSession, LifecycleReply, RestoreRecord};
use cmux_herdr::live::{live_report, live_request};
use cmux_herdr::handoff::{WriterDecision, WriterLease};
use cmux_herdr::live_host::{
    apply_live_windows, attach_live, detach_live, foreign_step, restore_live, ForeignStep, LiveApplyHost,
    LiveObservation,
};
use serde_json::Value;

fn conv(v: &Value) -> Json {
    match v {
        Value::Null => Json::Null,
        Value::Bool(b) => Json::Bool(*b),
        Value::Number(n) => Json::Number {
            text: n.to_string(),
            whole: n.as_i64(),
            trunc: n.as_i64().unwrap_or(0),
        },
        Value::String(s) => Json::Str(s.clone()),
        Value::Array(items) => Json::Array { items: items.iter().map(conv).collect(), text: v.to_string() },
        Value::Object(map) => Json::Object {
            entries: map.iter().map(|(k, x)| (k.clone(), conv(x))).collect(),
            text: v.to_string(),
        },
    }
}

fn json(text: &str) -> Json {
    conv(&serde_json::from_str::<Value>(text).unwrap())
}

fn window(tab_id: &str, pane_id: &str) -> HerdrWindow {
    HerdrWindow::new(
        tab_id,
        tab_id,
        0,
        LayoutNode {
            kind: "pane".into(),
            pane_id: Some(pane_id.into()),
            children: Vec::new(),
            rect: LayoutRect::unit(),
        },
        None,
        false,
        Some(pane_id.into()),
    )
}

fn sessions() -> Vec<DiscoveredSession> {
    vec![
        DiscoveredSession::new("w1", "work", 2, false),
        DiscoveredSession::new("w2", "play", 1, false),
    ]
}

fn ids(v: &[DiscoveredSession]) -> Vec<String> {
    v.iter().map(|s| s.session_id.clone()).collect()
}

#[test]
fn teardown_never_marks_provider_stopped() {
    let mut host = LiveApplyHost::new(true, "/tmp/herdr.sock", false);
    host.apply_session(&[window("t", "p")]).unwrap();
    let result = host.detach();
    assert!(matches!(result, LifecycleReply::HostClosed { .. }));
    assert!(!host.lifecycle.server_stopped);
    assert!(host.window_order.is_empty());
}

#[test]
fn native_writer_callback_runs_before_marking_live() {
    let mut host = LiveApplyHost::new(true, "/tmp/herdr.sock", true);
    let mut called = false;
    if host.set_native_live() {
        called = true;
    }
    assert!(called);
    assert!(host.native_live);
    assert_eq!(host.log.last().map(String::as_str), Some("native_live"));
}

#[test]
fn native_live_is_left_alone_without_the_claim() {
    let mut host = LiveApplyHost::new(true, "/tmp/herdr.sock", false);
    assert!(!host.set_native_live());
    assert!(!host.native_live);
    assert!(host.log.is_empty());
}

#[test]
fn session_apply_follows_window_arrival_and_closes_defaults() {
    let mut host = LiveApplyHost::new(true, "/tmp/herdr.sock", false);
    let first = host.apply_session(&[window("t2", "z"), window("t1", "a")]).unwrap();
    assert!(first.ok);
    assert_eq!(first.tabs, vec!["t2", "t1"]);
    assert_eq!(first.session_ops, vec!["create_tab", "create_tab", "close_default_tabs"]);
    assert!(!first.defaults_open);
    assert_eq!(host.previous_tab_ids, vec!["t1", "t2"]);
    assert_eq!(host.log.last().map(String::as_str), Some("session:tabs=2"));
    let second = host.apply_session(&[window("t1", "a")]).unwrap();
    assert_eq!(second.tabs, vec!["t1"]);
    assert_eq!(second.session_ops, vec!["close_tab"]);
}

#[test]
fn disabled_host_applies_and_attaches_nothing() {
    let mut host = LiveApplyHost::new(false, "/tmp/herdr.sock", false);
    let applied = host.apply_session(&[window("t", "p")]).unwrap();
    assert!(!applied.ok);
    assert!(applied.tabs.is_empty());
    match host.attach(&sessions(), true) {
        LifecycleReply::Refused { outcome, reason } => {
            assert_eq!(outcome, "disabled");
            assert_eq!(reason, None);
        }
        other => panic!("unexpected {:?}", other),
    }
    assert!(host.log.is_empty());
}

#[test]
fn attach_step_attaches_and_asks_to_persist_and_claim() {
    let (host, out) = attach_live(&[window("t", "p")], &sessions(), "/tmp/herdr.sock", true, true);
    assert!(matches!(out.attach, LifecycleReply::Attached { .. }));
    assert!(out.ok);
    assert!(out.persist);
    assert!(out.claim_writer);
    assert!(host.lifecycle.persist.is_some());
    assert!(host.log.iter().any(|l| l.starts_with("attach:")));
    let (_, unpersisted) = attach_live(&[window("t", "p")], &sessions(), "/tmp/herdr.sock", true, false);
    assert!(!unpersisted.persist);
    assert!(unpersisted.claim_writer);
}

#[test]
fn restore_step_needs_a_record() {
    assert!(restore_live(&[window("t", "p")], &sessions(), "/tmp/herdr.sock", None).is_none());
    let (attached, _) = attach_live(&[window("t", "p")], &sessions(), "/tmp/herdr.sock", true, true);
    let record: Option<RestoreRecord> = attached.lifecycle.persist;
    let (host, out) = restore_live(&[window("t", "p")], &sessions(), "/tmp/herdr.sock", record).unwrap();
    assert!(matches!(out.restore, LifecycleReply::Attached { reattached: true, .. }));
    assert!(out.ok);
    assert!(out.persist && out.claim_writer);
    assert_eq!(host.window_order, vec!["t"]);
}

#[test]
fn detach_step_tears_down_and_keeps_the_provider() {
    let (host, reply) = detach_live(&[window("t", "p")], "/tmp/other.sock").unwrap();
    assert!(host.window_order.is_empty());
    assert_eq!(host.socket_path, "/tmp/other.sock");
    assert!(!host.lifecycle.server_stopped);
    assert!(matches!(reply, LifecycleReply::HostClosed { .. }));
}

#[test]
fn observe_reports_state_and_mirroring() {
    let mut host = apply_live_windows(&[window("t", "p")], None, true).unwrap();
    let params = json(r#"{"socket": "/tmp/herdr.sock", "session": "main"}"#);
    let (gate, seen) = host.observe("remote.herdr.state", &params);
    assert!(gate.ok);
    match seen {
        LiveObservation::State { session, window_ids } => {
            assert_eq!(session, "main");
            assert_eq!(window_ids, vec!["t"]);
        }
        other => panic!("unexpected {:?}", other),
    }
    let (_, panes) = host.observe("remote.herdr.pane_grids", &params);
    assert!(matches!(panes, LiveObservation::Panes { mirrored: true }));
    let (refused, nothing) = host.observe("remote.herdr.nope", &params);
    assert!(!refused.ok);
    assert_eq!(refused.code.as_deref(), Some("unknown_method"));
    assert!(matches!(nothing, LiveObservation::Gate));
    let (_, detached) = host.observe("remote.herdr.detach", &params);
    assert!(matches!(detached, LiveObservation::Detached(_)));
    assert!(host.window_order.is_empty());
}

#[test]
fn live_request_chooses_sessions_and_methods() {
    let all = sessions();
    let attach = live_request("attach", &all, Some("play"), None).unwrap();
    assert_eq!(ids(&attach.sessions), vec!["w2"]);
    let unmatched = live_request("attach", &all, Some("nobody"), None).unwrap();
    assert_eq!(ids(&unmatched.sessions), vec!["w1", "w2"]);
    let by_id = live_request("attach", &all, Some("w1"), None).unwrap();
    assert_eq!(ids(&by_id.sessions), vec!["w1"]);
    assert!(live_request("detach", &all, None, None).unwrap().sessions.is_empty());
    assert_eq!(ids(&live_request("restore", &all, None, None).unwrap().sessions), vec!["w1", "w2"]);
    let observe = live_request("observe", &all, None, Some("state")).unwrap();
    assert_eq!(observe.method.as_deref(), Some("remote.herdr.state"));
    assert_eq!(observe.session.as_deref(), Some("main"));
    let kept = live_request("observe", &all, Some("w2"), Some("remote.herdr.pane_grids")).unwrap();
    assert_eq!(kept.method.as_deref(), Some("remote.herdr.pane_grids"));
    assert_eq!(kept.session.as_deref(), Some("w2"));
    assert!(live_request("bogus", &all, None, None).is_none());
}

#[test]
fn live_report_lines_and_exit_codes() {
    let attached = json(
        r#"{"ok": true, "outcome": "mirrored", "apply": {"tabs": ["a", "b"]}, "server_stopped": false, "restore_path": "/r.json"}"#,
    );
    assert_eq!(
        live_report("attach", &attached),
        ("attached mirrored tabs=2 server_stopped=False\nrestore: /r.json".to_string(), 0)
    );
    let native = json(r#"{"ok": false, "writer": "native"}"#);
    assert_eq!(
        live_report("attach", &native),
        ("native owns this host; plugin apply not started".to_string(), 2)
    );
    let detached = json(r#"{"ok": true, "server_stopped": false}"#);
    assert_eq!(
        live_report("detach", &detached),
        ("detached (server_stopped=False; Herdr session left running)".to_string(), 0)
    );
    let native_detach = json(r#"{"ok": true, "outcome": "native_owns"}"#);
    assert_eq!(
        live_report("detach", &native_detach).0,
        "native owns this host; plugin did not detach native"
    );
    let restored = json(r#"{"ok": false, "outcome": "no_persist", "server_stopped": false}"#);
    assert_eq!(
        live_report("restore", &restored),
        ("restore no_persist server_stopped=False".to_string(), 2)
    );
    let moded = json(r#"{"ok": true, "mode": "reattach", "outcome": "x", "server_stopped": false}"#);
    assert_eq!(live_report("restore", &moded).0, "restore reattach server_stopped=False");
}

fn decision(native_live: bool, plugin_live: bool, force_plugin: bool, pid: Option<i64>) -> WriterDecision {
    WriterDecision {
        writer: "plugin".into(),
        owner: None,
        native_live,
        plugin_live,
        native_detected: native_live,
        plugin_detected: plugin_live,
        force_plugin,
        env_native_live: false,
        lease_stale: false,
        lease: pid.map(|pid| WriterLease {
            owner: "plugin".into(),
            pid,
            heartbeat_ms: 0,
            fingerprint: "fp".into(),
            endpoint_hash: "h".into(),
            socket_path: "/tmp/herdr.sock".into(),
            schema: 1,
            path: "/state/plugin-live".into(),
        }),
        fingerprint: "fp".into(),
    }
}

#[test]
fn live_steps_yield_to_other_writers() {
    let native = decision(true, false, false, None);
    assert_eq!(foreign_step("attach", &native, 10), ForeignStep::Yield);
    assert_eq!(foreign_step("observe", &native, 10), ForeignStep::ObserveForeign);
    let forced = decision(true, false, true, None);
    assert_eq!(foreign_step("attach", &forced, 10), ForeignStep::Proceed);
    let other_plugin = decision(false, true, false, Some(77));
    assert_eq!(foreign_step("observe", &other_plugin, 10), ForeignStep::ObserveForeign);
    assert_eq!(foreign_step("detach", &other_plugin, 10), ForeignStep::Proceed);
    let own_plugin = decision(false, true, false, Some(10));
    assert_eq!(foreign_step("observe", &own_plugin, 10), ForeignStep::Proceed);
    let no_pid = decision(false, true, false, Some(0));
    assert_eq!(foreign_step("observe", &no_pid, 10), ForeignStep::Proceed);
}

#[test]
fn reapplying_the_same_windows_asks_for_nothing() {
    let mut host = LiveApplyHost::new(true, "/tmp/herdr.sock", false);
    let windows = [window("t2", "z"), window("t1", "a")];
    host.apply_session(&windows).unwrap();
    let again = host.apply_session(&windows).unwrap();
    assert!(again.ok);
    assert!(again.session_ops.is_empty());
    assert_eq!(again.tabs, vec!["t2", "t1"]);
}
