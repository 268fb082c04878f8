use cmux_herdr::json::Json;
use cmux_herdr::model::{Pane, Tab};
use cmux_herdr::sync::{stale_keys, sync_counts, sync_pane_positions, sync_plan, sync_summary, SyncCounts};
use serde_json::Value;

fn pane(id: &str, agent: Option<&str>, status: &str) -> Pane {
    Pane {
        pane_id: id.to_string(),
        tab_id: "t".to_string(),
        workspace_id: "w".to_string(),
        agent: agent.map(str::to_string),
        agent_status: status.to_string(),
        label: None,
        cwd: None,
        focused: false,
        terminal_title: None,
        agent_session_path: None,
        agent_session_id: None,
        agent_session_kind: None,
        revision: None,
        raw: Json::Null,
    }
}

#[test]
fn sync_chooses_named_agents_and_buckets_statuses() {
    let panes = vec![
        pane("a", Some("goose"), "WORKING"),
        pane("b", None, "idle"),
        pane("c", Some("pi"), "Unknown"),
        pane("d", Some("pi"), "napping"),
    ];
    let pos = sync_pane_positions(&panes);
    assert_eq!(pos, vec![0, 2, 3]);
    let c = sync_counts(&panes, &pos);
    assert_eq!(c, SyncCounts { working: 1, idle: 0, done: 0, blocked: 0, unknown: 1, other: 1 });
}

#[test]
fn sync_buckets_by_unicode_lowercase() {
    let panes = vec![pane("a", Some("goose"), "WOR\u{212A}ING"), pane("b", Some("pi"), "\u{130}DLE")];
    let pos = sync_pane_positions(&panes);
    assert_eq!(pos, vec![0, 1]);
    let c = sync_counts(&panes, &pos);
    assert_eq!(c.working, 1);
    assert_eq!(c.other, 1);
}

#[test]
fn sync_falls_back_to_known_states() {
    let panes = vec![pane("a", None, "idle"), pane("b", None, "asleep"), pane("c", None, "done")];
    assert_eq!(sync_pane_positions(&panes), vec![0, 2]);
}

#[test]
fn stale_pills_and_summary() {
    let listed = vec!["herdr:a".to_string(), "herdr:x".to_string(), "herdr:b".to_string()];
    let wanted = vec!["herdr:a".to_string(), "herdr:b".to_string()];
    assert_eq!(stale_keys(&listed, &wanted), vec!["herdr:x".to_string()]);
    let c = SyncCounts { working: 2, idle: 1, done: 0, blocked: 3, unknown: 0, other: 4 };
    assert_eq!(
        sync_summary(3, "workspace:1", &c, 0),
        "herdr sync: 3 panes → cmux ws=workspace:1 (working=2 idle=1 done=0 blocked=3 unknown=0)"
    );
    assert_eq!(
        sync_summary(0, "w", &c, 5),
        "herdr sync: 0 panes → cmux ws=w (working=2 idle=1 done=0 blocked=3 unknown=0 unchanged=5)"
    );
}

fn conv(v: &Value) -> Json {
    match v {
        Value::Null => Json::Null,
        Value::Bool(b) => Json::Bool(*b),
        Value::Number(n) => Json::Number { text: n.to_string(), whole: n.as_i64(), trunc: n.as_i64().unwrap_or(0) },
        Value::String(s) => Json::Str(s.clone()),
        Value::Array(items) => Json::Array { items: items.iter().map(conv).collect(), text: v.to_string() },
        Value::Object(map) => Json::Object {
            entries: map.iter().map(|(k, x)| (k.clone(), conv(x))).collect(),
            text: v.to_string(),
        },
    }
}

#[test]
fn sync_plan_skips_unchanged_pills() {
    let panes = vec![
        pane("a", Some("goose"), "working"),
        pane("b", None, "idle"),
        pane("c", Some("pi"), "done"),
    ];
    let tabs: Vec<(String, Tab)> = Vec::new();
    let (first, counts) = sync_plan(&panes, &tabs, &Json::Null);
    assert_eq!(first.iter().map(|i| i.position).collect::<Vec<_>>(), vec![0, 2]);
    assert_eq!(first.iter().map(|i| i.key.as_str()).collect::<Vec<_>>(), vec!["herdr:a", "herdr:c"]);
    assert!(first.iter().all(|i| i.write));
    assert_eq!(counts, SyncCounts { working: 1, idle: 0, done: 1, blocked: 0, unknown: 0, other: 0 });
    let p = &first[0].payload;
    let text = format!(
        r#"{{"a": {{"last_status_value": {}, "last_icon": {}, "last_color": {}, "last_priority": {}}}}}"#,
        serde_json::to_string(&p.value).unwrap(),
        serde_json::to_string(p.icon).unwrap(),
        serde_json::to_string(p.color).unwrap(),
        p.priority
    );
    let previous: Value = serde_json::from_str(&text).unwrap();
    let (second, _) = sync_plan(&panes, &tabs, &conv(&previous));
    assert!(!second[0].write);
    assert!(second[1].write);
    assert_eq!(second[0].payload.value, p.value);
}
