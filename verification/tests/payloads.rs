use cmux_herdr::api::{build_cli_argv, extract_agent_status, extract_read_text};
use cmux_herdr::handoff::{parse_lease_text, py_repr, py_repr_string, SCHEMA};
use cmux_herdr::json::Json;
use cmux_herdr::lifecycle::{decode_beta, dispatch, window_target_from_params, RestoreRecord};
use cmux_herdr::sidebar::workspaces_from_tree;
use cmux_herdr::bridge::{parse_json_payload, BridgeError};
use cmux_herdr::mirror::parse_cmux_json;
use serde_json::Value;

fn conv(v: &Value) -> Json {
    match v {
        Value::Null => Json::Null,
        Value::Bool(b) => Json::Bool(*b),
        Value::Number(n) => {
            let whole = n.as_i64().or_else(|| {
                n.as_f64()
                    .filter(|f| f.fract() == 0.0 && *f >= -9223372036854775808.0 && *f < 9223372036854775808.0)
                    .map(|f| f as i64)
            });
            let trunc = n.as_i64().unwrap_or_else(|| n.as_f64().unwrap_or(0.0) as i64);
            Json::Number { text: n.to_string(), whole, trunc }
        }
        Value::String(s) => Json::Str(s.clone()),
        Value::Array(items) => Json::Array { items: items.iter().map(conv).collect(), text: v.to_string() },
        Value::Object(map) => Json::Object {
            entries: map.iter().map(|(k, x)| (k.clone(), conv(x))).collect(),
            text: v.to_string(),
        },
    }
}

fn json(text: &str) -> Json {
    conv(&serde_json::from_str::<Value>(text).unwrap())
}

fn argv(method: &str, params: &str) -> Option<Vec<String>> {
    build_cli_argv(method, &json(params))
}

fn strings(items: &[&str]) -> Vec<String> {
    items.iter().map(|s| s.to_string()).collect()
}

#[test]
fn argv_pane_current_has_no_flag() {
    assert_eq!(argv("pane.current", "{}"), Some(vec!["pane".to_string(), "current".to_string()]));
}

#[test]
fn argv_layout_export_tab_only_is_socket_only() {
    assert_eq!(argv("layout.export", r#"{"tab_id": "t1"}"#), None);
    assert_eq!(
        argv("layout.export", "{}"),
        Some(vec!["pane".to_string(), "layout".to_string(), "--current".to_string()])
    );
}

#[test]
fn argv_pane_read_defaults_recent() {
    assert_eq!(argv("pane.read", r#"{"pane_id": "p1"}"#), Some(strings(&["pane", "read", "p1", "--source", "recent"])));
}

#[test]
fn argv_tab_move_is_socket_only() {
    assert_eq!(argv("tab.move", r#"{"tab_id": "t1"}"#), None);
}

#[test]
fn argv_pane_close_drops_force() {
    assert_eq!(argv("pane.close", r#"{"pane_id": "p1", "force": true}"#), Some(strings(&["pane", "close", "p1"])));
}

#[test]
fn argv_pane_move_to_tab_with_ratio_and_focus() {
    let p = r#"{"pane_id": "p1", "destination": {"type": "tab", "tab_id": "t2", "ratio": 0.5}, "focus": false}"#;
    assert_eq!(
        argv("pane.move", p),
        Some(strings(&["pane", "move", "p1", "--tab", "t2", "--split", "right", "--ratio", "0.5", "--no-focus"]))
    );
    assert_eq!(argv("pane.move", r#"{"pane_id": "p1", "destination": {"type": "moon"}}"#), None);
}

#[test]
fn argv_agent_prompt_waits_with_timeout() {
    let p = r#"{"pane_id": "p1", "prompt": "hi", "wait": {"until": "idle", "timeout_ms": 500}}"#;
    assert_eq!(
        argv("agent.prompt", p),
        Some(strings(&["agent", "prompt", "p1", "hi", "--wait", "--until", "idle", "--timeout", "500"]))
    );
}

#[test]
fn argv_split_and_zoom_and_swap() {
    assert_eq!(argv("pane.split", "{}"), Some(strings(&["pane", "split", "--current", "--direction", "right"])));
    assert_eq!(argv("pane.zoom", r#"{"mode": "toggle"}"#), Some(strings(&["pane", "zoom", "--toggle"])));
    assert_eq!(argv("pane.zoom", "{}"), Some(strings(&["pane", "zoom", "--current"])));
    assert_eq!(
        argv("pane.swap", r#"{"source_pane_id": "a", "target_pane_id": "b"}"#),
        Some(strings(&["pane", "swap", "--source-pane", "a", "--target-pane", "b"]))
    );
    assert_eq!(argv("pane.swap", "{}"), None);
    assert_eq!(argv("ping", "[1]"), Some(strings(&["status"])));
    assert_eq!(argv("layout.apply", "{}"), None);
    assert_eq!(argv("workspace.move", r#"{"workspace_id": "w", "index": 2}"#), Some(strings(&["workspace", "move", "w", "--index", "2"])));
}

#[test]
fn extract_read_text_prefers_keys() {
    assert_eq!(extract_read_text(&json(r#"{"text": "hi"}"#)), "hi");
    assert_eq!(extract_read_text(&json(r#"{"lines": ["a", "b"]}"#)), "a\nb");
    assert_eq!(extract_read_text(&json(r#"{"result": {"content": "x"}}"#)), "x");
    assert_eq!(extract_read_text(&json(r#"["a", 1]"#)), "a\n1");
}

#[test]
fn extract_agent_status_walks_nested() {
    assert_eq!(extract_agent_status(&json(r#"{"pane": {"agent_status": "working"}}"#)), Some("working".into()));
    assert_eq!(extract_agent_status(&json("{}")), None);
}

#[test]
fn beta_setting_decodes_words_and_numbers() {
    assert!(decode_beta(Some(&json(r#"" ON ""#)), false));
    assert!(!decode_beta(Some(&json(r#""off""#)), true));
    assert!(decode_beta(Some(&json("1")), false));
    assert!(!decode_beta(Some(&json("0")), true));
    assert!(decode_beta(Some(&json("2")), true));
    assert!(!decode_beta(None, false));
}

#[test]
fn dispatch_validates_in_order() {
    assert_eq!(dispatch("remote.herdr.nope", None, true).code.as_deref(), Some("unknown_method"));
    assert_eq!(dispatch("remote.herdr.attach", None, false).code.as_deref(), Some("disabled"));
    assert_eq!(dispatch("remote.herdr.attach", None, true).code.as_deref(), Some("invalid_params"));
    let p = json(r#"{"socket": "/tmp/h.sock"}"#);
    assert_eq!(dispatch("remote.herdr.attach", Some(&p), true).code.as_deref(), Some("invalid_params"));
    let p = json(r#"{"socket_path": " /tmp/h.sock ", "session": "main", "activate": 1, "window_id": "w1"}"#);
    let r = dispatch("remote.herdr.attach", Some(&p), true);
    assert!(r.ok);
    assert_eq!(r.socket.as_deref(), Some("/tmp/h.sock"));
    assert_eq!(r.session.as_deref(), Some("main"));
    assert!(r.activate && !r.create);
    let t = r.target.unwrap();
    assert_eq!(t.kind, "explicit");
    assert_eq!(t.window_id.as_deref(), Some("w1"));
    let r = dispatch("remote.herdr.window", Some(&p), true);
    assert_eq!(r.target.unwrap().kind, "dedicated_new_window");
    assert_eq!(r.session, None);
}

#[test]
fn window_targets_from_params() {
    assert_eq!(window_target_from_params(&json(r#"{"window_id": ""}"#), false).kind, "unresolved_explicit");
    assert_eq!(window_target_from_params(&json(r#"{"window_id": null}"#), false).kind, "unresolved_explicit");
    let t = window_target_from_params(&json(r#"{"preferred_window_id": 7}"#), false);
    assert_eq!(t.kind, "contextual");
    assert_eq!(t.window_id.as_deref(), Some("7"));
    assert_eq!(window_target_from_params(&json("{}"), false).window_id, None);
}

#[test]
fn restore_record_reads_back_and_refuses_replay() {
    let ok = json(r#"{"endpoint_hash": "h", "socket_path": "/tmp/herdr.sock", "session_ids": ["main"], "target_kind": "contextual", "mode": "reattach"}"#);
    let rec = RestoreRecord::from_value(&ok).unwrap();
    assert_eq!(rec.session_ids, vec!["main".to_string()]);
    assert_eq!(rec.window_id, None);
    let replay = json(r#"{"endpoint_hash": "h", "socket_path": "/tmp/herdr.sock", "session_ids": ["main"], "target_kind": "contextual", "mode": "replay_tree"}"#);
    assert!(RestoreRecord::from_value(&replay).is_none());
    let empty = json(r#"{"endpoint_hash": "h", "socket_path": "/tmp/herdr.sock", "session_ids": [], "target_kind": "contextual"}"#);
    assert!(RestoreRecord::from_value(&empty).is_none());
}

#[test]
fn lease_text_json_and_marker_forms() {
    let text = r#"{"owner": "native", "pid": 12, "heartbeat_ms": 0, "endpoint_hash": "e"}"#;
    let lease = parse_lease_text(text, "/s/writer-fp.json", None, "fp", Some(&json(text)), 777).unwrap();
    assert_eq!(lease.owner, "native");
    assert_eq!(lease.pid, 12);
    assert_eq!(lease.heartbeat_ms, 777);
    assert_eq!(lease.fingerprint, "fp");
    assert_eq!(lease.endpoint_hash, "e");
    assert_eq!(lease.schema, SCHEMA);
    let marker = parse_lease_text(" LIVE\n", "/s/plugin-live-fp", Some("plugin"), "fp", None, 5).unwrap();
    assert_eq!(marker.owner, "plugin");
    assert_eq!(marker.pid, 0);
    assert_eq!(marker.schema, 0);
    assert!(parse_lease_text("nope", "/s/plugin-live", Some("plugin"), "fp", None, 5).is_none());
    let bad_owner = r#"{"owner": "other"}"#;
    assert!(parse_lease_text(bad_owner, "/p", None, "fp", Some(&json(bad_owner)), 5).is_none());
    let text_pid = r#"{"owner": "plugin", "pid": " 42 "}"#;
    assert_eq!(parse_lease_text(text_pid, "/p", None, "fp", Some(&json(text_pid)), 5).unwrap().pid, 42);
}

#[test]
fn literal_renderings() {
    assert_eq!(py_repr_string("it's"), "\"it's\"");
    assert_eq!(py_repr_string("a\tb\u{1}"), "'a\\tb\\x01'");
    assert_eq!(py_repr(&json(r#"{"a": [1, null, true, "x"]}"#)), "{'a': [1, None, True, 'x']}");
}

#[test]
fn workspace_rows_skip_malformed_items() {
    let payload = json(r#"{"workspaces": [{"id": 1, "name": "one", "active": false}, {"id": null, "name": "x"}, {"id": 2, "name": "two", "active": true, "key": "k"}, 5]}"#);
    let rows = workspaces_from_tree(&payload);
    assert_eq!(rows.len(), 2);
    assert_eq!(rows[0].id, "1");
    assert_eq!(rows[1].name, "two");
    assert!(rows[1].active);
    assert_eq!(rows[1].key.as_deref(), Some("k"));
    assert!(workspaces_from_tree(&json("[]")).is_empty());
}

fn object_of(key: &str, v: Value) -> Value {
    let mut m = serde_json::Map::new();
    m.insert(key.to_string(), v);
    Value::Object(m)
}

#[test]
fn parse_json_payload_tolerates_trailing_noise() {
    assert_eq!(parse_json_payload("{\"a\":1}").unwrap(), object_of("a", Value::from(1)));
    let out = parse_json_payload("warn: hi\n{\"ok\":true}\nmore").unwrap();
    assert_eq!(out, object_of("ok", Value::Bool(true)));
    assert_eq!(parse_json_payload("noise\n[1,2]").unwrap(), Value::Array(vec![Value::from(1), Value::from(2)]));
}

#[test]
fn parse_json_payload_empty_errors() {
    assert_eq!(parse_json_payload("   ").unwrap_err(), BridgeError::new("empty JSON response".to_string()));
}

#[test]
fn parse_json_payload_bad_candidate_or_none_is_invalid() {
    assert_eq!(parse_json_payload("warn\n{broken\n[1]").unwrap_err(), BridgeError::new("invalid JSON response".to_string()));
    assert_eq!(parse_json_payload("just words").unwrap_err(), BridgeError::new("invalid JSON response".to_string()));
    assert_eq!(parse_json_payload("  \r\n  [true] \r\n").unwrap(), Value::Array(vec![Value::Bool(true)]));
}

#[test]
fn malformed_json_candidate_propagates_decode_error() {
    assert!(parse_cmux_json("OK\n{broken").is_err());
    assert_eq!(parse_cmux_json("OK\nnoise").unwrap(), None);
}

#[test]
fn cmux_json_reads_the_line_after_ok() {
    assert_eq!(parse_cmux_json("OK\n  {\"id\":\"w1\"}  ").unwrap(), Some(object_of("id", Value::from("w1"))));
    assert_eq!(parse_cmux_json(" \n ").unwrap(), None);
    assert_eq!(parse_cmux_json("[]").unwrap(), Some(Value::Array(vec![])));
}
